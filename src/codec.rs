use vstd::prelude::*;

verus! {

/// First byte of every frame.
pub const START_MARKER: u8 = 0xA5;

/// Last byte of every frame.
pub const END_MARKER: u8 = 0x15;

/// Two little-endian bytes of `v`.
pub open spec fn le16(v: u16) -> Seq<u8> {
    seq![(v % 256) as u8, (v / 256) as u8]
}

/// Two big-endian bytes of `v`.
pub open spec fn be16(v: u16) -> Seq<u8> {
    seq![(v / 256) as u8, (v % 256) as u8]
}

/// Four little-endian bytes of `v`.
pub open spec fn le32(v: u32) -> Seq<u8> {
    seq![
        (v % 256) as u8,
        ((v / 0x100) % 256) as u8,
        ((v / 0x10000) % 256) as u8,
        (v / 0x1000000) as u8,
    ]
}

/// Sum of the bytes of `s`, as an unbounded integer.
pub open spec fn byte_sum(s: Seq<u8>) -> int
    decreases s.len(),
{
    if s.len() == 0 {
        0
    } else {
        byte_sum(s.drop_last()) + s.last()
    }
}

/// Checksum of an assembled header and payload: the sum modulo 256 of every
/// byte but the start marker.
pub open spec fn checksum_of(body: Seq<u8>) -> u8 {
    (byte_sum(body.drop_first()) % 256) as u8
}

/// Kind of unit that a request is addressed to.
#[derive(Debug, Clone, Copy, PartialEq, Eq, Structural)]
pub enum RequestFrameType {
    SolarInverter,
    DataLoggingStick,
    SolarmanCloud,
}

impl RequestFrameType {
    /// The tag byte that stands for this kind on the wire.
    pub open spec fn spec_tag(self) -> u8 {
        match self {
            RequestFrameType::SolarInverter => 0x02,
            RequestFrameType::DataLoggingStick => 0x01,
            RequestFrameType::SolarmanCloud => 0x00,
        }
    }

    pub fn tag(&self) -> (r: u8)
        ensures
            r == self.spec_tag(),
    {
        match self {
            RequestFrameType::SolarInverter => 0x02,
            RequestFrameType::DataLoggingStick => 0x01,
            RequestFrameType::SolarmanCloud => 0x00,
        }
    }
}

/// Header of an outbound frame; the payload length is supplied when encoding.
#[derive(Debug)]
pub struct RequestHeader {
    pub msg_id: u16,
    pub logger_serial: [u8; 4],
}

/// Payload of an outbound frame, carrying an opaque embedded frame.
#[derive(Debug)]
pub struct RequestPayload<'a> {
    pub frame_type: RequestFrameType,
    pub sensor_type: u16,
    pub total_working_second: u32,
    pub uptime_second: u32,
    pub offset_seconds: u32,
    pub modbus_rtu_frame: &'a [u8],
}

/// A complete outbound frame.
#[derive(Debug)]
pub struct Request<'a> {
    pub header: RequestHeader,
    pub payload: RequestPayload<'a>,
}

/// Largest embedded frame whose payload length still fits the 16-bit field.
pub const MAX_EMBEDDED_FRAME_LEN: usize = 65520;

/// Bytes of the payload that precede the embedded frame.
pub const PAYLOAD_FIXED_LEN: usize = 15;

impl RequestHeader {
    /// Wire bytes of the header for a payload of `payload_length` bytes.
    pub open spec fn spec_bytes(self, payload_length: u16) -> Seq<u8> {
        seq![START_MARKER] + le16(payload_length) + seq![0x10u8, 0x45u8] + le16(self.msg_id)
            + self.logger_serial@
    }

    pub fn to_bytes(&self, payload_length: u16) -> (r: Vec<u8>)
        ensures
            r@ == self.spec_bytes(payload_length),
    {
        let mut bytes: Vec<u8> = Vec::new();
        bytes.push(START_MARKER);
        push_le16(&mut bytes, payload_length);
        bytes.push(0x10);
        bytes.push(0x45);
        push_le16(&mut bytes, self.msg_id);
        let mut i: usize = 0;
        while i < 4
            invariant
                0 <= i <= 4,
                bytes@ == seq![START_MARKER] + le16(payload_length) + seq![0x10u8, 0x45u8]
                    + le16(self.msg_id) + self.logger_serial@.subrange(0, i as int),
            decreases 4 - i,
        {
            bytes.push(self.logger_serial[i]);
            i = i + 1;
            assert(self.logger_serial@.subrange(0, i as int) =~= self.logger_serial@.subrange(
                0,
                i - 1,
            ).push(self.logger_serial@[i - 1]));
        }
        assert(self.logger_serial@.subrange(0, 4) =~= self.logger_serial@);
        bytes
    }
}

impl<'a> RequestPayload<'a> {
    /// Wire bytes of the payload: the fixed fields, then the embedded frame.
    pub open spec fn spec_bytes(self) -> Seq<u8> {
        seq![self.frame_type.spec_tag()] + be16(self.sensor_type) + le32(self.total_working_second)
            + le32(self.uptime_second) + le32(self.offset_seconds) + self.modbus_rtu_frame@
    }

    /// Payload length as the header declares it.
    pub open spec fn spec_length(self) -> int {
        PAYLOAD_FIXED_LEN + self.modbus_rtu_frame@.len()
    }

    pub fn length(&self) -> (r: u16)
        requires
            self.modbus_rtu_frame@.len() <= MAX_EMBEDDED_FRAME_LEN,
        ensures
            r == self.spec_length(),
    {
        (PAYLOAD_FIXED_LEN + self.modbus_rtu_frame.len()) as u16
    }

    pub fn to_bytes(&self) -> (r: Vec<u8>)
        ensures
            r@ == self.spec_bytes(),
    {
        let mut bytes: Vec<u8> = Vec::new();
        bytes.push(self.frame_type.tag());
        push_be16(&mut bytes, self.sensor_type);
        push_le32(&mut bytes, self.total_working_second);
        push_le32(&mut bytes, self.uptime_second);
        push_le32(&mut bytes, self.offset_seconds);
        push_all(&mut bytes, self.modbus_rtu_frame);
        bytes
    }
}

/// Header and payload bytes of a request, before the checksum and the end
/// marker. The length field counts the fixed payload fields and the embedded
/// frame; the sensor type is the one big-endian field.
pub open spec fn wire_body(
    msg_id: u16,
    serial: Seq<u8>,
    tag: u8,
    sensor_type: u16,
    total_working_second: u32,
    uptime_second: u32,
    offset_seconds: u32,
    frame: Seq<u8>,
) -> Seq<u8> {
    seq![START_MARKER] + le16((PAYLOAD_FIXED_LEN + frame.len()) as u16) + seq![0x10u8, 0x45u8]
        + le16(msg_id) + serial + seq![tag] + be16(sensor_type) + le32(total_working_second)
        + le32(uptime_second) + le32(offset_seconds) + frame
}

/// A complete frame: `body`, its checksum and the end marker.
pub open spec fn wire_frame(body: Seq<u8>) -> Seq<u8> {
    body + seq![checksum_of(body), END_MARKER]
}

impl<'a> Request<'a> {
    /// Header and payload, before the checksum and the end marker.
    pub open spec fn spec_body(self) -> Seq<u8> {
        wire_body(
            self.header.msg_id,
            self.header.logger_serial@,
            self.payload.frame_type.spec_tag(),
            self.payload.sensor_type,
            self.payload.total_working_second,
            self.payload.uptime_second,
            self.payload.offset_seconds,
            self.payload.modbus_rtu_frame@,
        )
    }

    /// The complete frame on the wire.
    pub open spec fn spec_bytes(self) -> Seq<u8> {
        wire_frame(self.spec_body())
    }

    pub fn to_bytes(&self) -> (r: Vec<u8>)
        requires
            self.payload.modbus_rtu_frame@.len() <= MAX_EMBEDDED_FRAME_LEN,
        ensures
            r@ == self.spec_bytes(),
    {
        let payload_length = self.payload.length();
        let mut bytes = self.header.to_bytes(payload_length);
        let payload = self.payload.to_bytes();
        push_all(&mut bytes, payload.as_slice());
        assert(bytes@ =~= self.spec_body());
        let checksum = checksum(&bytes);
        bytes.push(checksum);
        bytes.push(END_MARKER);
        assert(bytes@ =~= self.spec_bytes());
        bytes
    }
}

/// Sum modulo 256 of every byte of `bytes` but the first.
pub fn checksum(bytes: &Vec<u8>) -> (r: u8)
    requires
        bytes@.len() >= 1,
    ensures
        r == checksum_of(bytes@),
{
    let mut acc: u8 = 0;
    let mut i: usize = 1;
    while i < bytes.len()
        invariant
            1 <= i <= bytes@.len(),
            acc == byte_sum(bytes@.subrange(1, i as int)) % 256,
        decreases bytes@.len() - i,
    {
        let ghost before = bytes@.subrange(1, i as int);
        acc = ((acc as u16 + bytes[i] as u16) % 256) as u8;
        i = i + 1;
        assert(bytes@.subrange(1, i as int).drop_last() =~= before);
    }
    assert(bytes@.subrange(1, bytes@.len() as int) =~= bytes@.drop_first());
    acc
}

/// Bytes of a response header.
pub const RESPONSE_HEADER_LEN: usize = 11;

/// Shortest response payload: reserved byte, status, three timing fields,
/// checksum and end marker.
pub const RESPONSE_PAYLOAD_MIN_LEN: usize = 16;

/// Shortest response that can be decoded.
pub const RESPONSE_MIN_LEN: usize = RESPONSE_HEADER_LEN + RESPONSE_PAYLOAD_MIN_LEN;

/// Why a response buffer could not be decoded.
#[derive(Debug, Clone, Copy, PartialEq, Eq, Structural)]
pub enum DecodeError {
    /// Fewer bytes than a header takes.
    HeaderTooShort,
    /// Fewer payload bytes than the fixed payload fields take.
    PayloadTooShort,
}

/// Value of two little-endian bytes.
pub open spec fn from_le16(lo: u8, hi: u8) -> u16 {
    (lo + 256 * hi) as u16
}

/// Header of an inbound frame.
#[derive(Debug)]
pub struct ResponseHeader {
    pub length: u16,
    pub msg_id: [u8; 2],
    pub logger_serial: [u8; 4],
}

/// Payload of an inbound frame.
#[derive(Debug)]
pub struct ResponsePayload {
    pub status: u8,
    pub total_working_time: [u8; 4],
    pub power_on_time: [u8; 4],
    pub offset_time: [u8; 4],
    pub rtu_frame: Vec<u8>,
    pub checksum: u8,
}

/// A decoded inbound frame.
#[derive(Debug)]
pub struct Response {
    pub header: ResponseHeader,
    pub payload: ResponsePayload,
}

impl ResponseHeader {
    /// `self` holds the header fields that `data` carries.
    pub open spec fn decodes(self, data: Seq<u8>) -> bool {
        &&& self.length == from_le16(data[1], data[2])
        &&& self.msg_id@ == data.subrange(5, 7)
        &&& self.logger_serial@ == data.subrange(7, 11)
    }

    /// Reads the header from the first bytes of `data`.
    pub fn from_bytes(data: &[u8]) -> (r: Result<ResponseHeader, DecodeError>)
        ensures
            match r {
                Ok(h) => data@.len() >= RESPONSE_HEADER_LEN && h.decodes(data@),
                Err(e) => data@.len() < RESPONSE_HEADER_LEN && e == DecodeError::HeaderTooShort,
            },
    {
        if data.len() < RESPONSE_HEADER_LEN {
            return Err(DecodeError::HeaderTooShort);
        }
        let length = data[1] as u16 + 256 * (data[2] as u16);
        let msg_id = [data[5], data[6]];
        let logger_serial = [data[7], data[8], data[9], data[10]];
        assert(msg_id@ =~= data@.subrange(5, 7));
        assert(logger_serial@ =~= data@.subrange(7, 11));
        Ok(ResponseHeader { length, msg_id, logger_serial })
    }
}

/// The embedded frame of a response payload: everything after the fixed
/// fields, up to the checksum.
pub open spec fn payload_frame(data: Seq<u8>) -> Seq<u8> {
    data.subrange(14, data.len() - 2)
}

impl ResponsePayload {
    /// `self` holds the payload fields that `data` carries.
    pub open spec fn decodes(self, data: Seq<u8>) -> bool {
        &&& self.status == data[1]
        &&& self.total_working_time@ == data.subrange(2, 6)
        &&& self.power_on_time@ == data.subrange(6, 10)
        &&& self.offset_time@ == data.subrange(10, 14)
        &&& self.rtu_frame@ == payload_frame(data)
        &&& self.checksum == data[data.len() - 2]
    }

    /// Reads the payload from `data`, the bytes that follow the header.
    pub fn from_bytes(data: &[u8]) -> (r: Result<ResponsePayload, DecodeError>)
        ensures
            match r {
                Ok(p) => data@.len() >= RESPONSE_PAYLOAD_MIN_LEN && p.decodes(data@),
                Err(e) => data@.len() < RESPONSE_PAYLOAD_MIN_LEN && e
                    == DecodeError::PayloadTooShort,
            },
    {
        if data.len() < RESPONSE_PAYLOAD_MIN_LEN {
            return Err(DecodeError::PayloadTooShort);
        }
        let n = data.len();
        let status = data[1];
        let total_working_time = [data[2], data[3], data[4], data[5]];
        let power_on_time = [data[6], data[7], data[8], data[9]];
        let offset_time = [data[10], data[11], data[12], data[13]];
        let mut rtu_frame: Vec<u8> = Vec::with_capacity(n - RESPONSE_PAYLOAD_MIN_LEN);
        let mut i: usize = 14;
        while i < n - 2
            invariant
                n == data@.len(),
                14 <= i <= n - 2,
                rtu_frame@ == data@.subrange(14, i as int),
            decreases n - 2 - i,
        {
            rtu_frame.push(data[i]);
            i = i + 1;
            assert(data@.subrange(14, i as int) =~= data@.subrange(14, i - 1).push(data@[i - 1]));
        }
        assert(total_working_time@ =~= data@.subrange(2, 6));
        assert(power_on_time@ =~= data@.subrange(6, 10));
        assert(offset_time@ =~= data@.subrange(10, 14));
        Ok(
            ResponsePayload {
                status,
                total_working_time,
                power_on_time,
                offset_time,
                rtu_frame,
                checksum: data[n - 2],
            },
        )
    }
}

impl Response {
    /// `self` holds the fields that the response buffer `data` carries.
    pub open spec fn decodes(self, data: Seq<u8>) -> bool {
        &&& self.header.decodes(data)
        &&& self.payload.decodes(data.subrange(RESPONSE_HEADER_LEN as int, data.len() as int))
    }

    /// Decodes a whole response buffer. The checksum and end marker are
    /// carried over, not checked.
    pub fn from_bytes(data: &[u8]) -> (r: Result<Response, DecodeError>)
        ensures
            match r {
                Ok(resp) => data@.len() >= RESPONSE_MIN_LEN && resp.decodes(data@),
                Err(e) => if data@.len() < RESPONSE_HEADER_LEN {
                    e == DecodeError::HeaderTooShort
                } else {
                    data@.len() < RESPONSE_MIN_LEN && e == DecodeError::PayloadTooShort
                },
            },
    {
        let header = match ResponseHeader::from_bytes(data) {
            Ok(h) => h,
            Err(e) => return Err(e),
        };
        let rest = vstd::slice::slice_subrange(data, RESPONSE_HEADER_LEN, data.len());
        let payload = match ResponsePayload::from_bytes(rest) {
            Ok(p) => p,
            Err(e) => return Err(e),
        };
        Ok(Response { header, payload })
    }
}

fn push_le16(bytes: &mut Vec<u8>, v: u16)
    ensures
        final(bytes)@ == old(bytes)@ + le16(v),
{
    bytes.push((v % 256) as u8);
    bytes.push((v / 256) as u8);
    assert(bytes@ =~= old(bytes)@ + le16(v));
}

fn push_be16(bytes: &mut Vec<u8>, v: u16)
    ensures
        final(bytes)@ == old(bytes)@ + be16(v),
{
    bytes.push((v / 256) as u8);
    bytes.push((v % 256) as u8);
    assert(bytes@ =~= old(bytes)@ + be16(v));
}

fn push_le32(bytes: &mut Vec<u8>, v: u32)
    ensures
        final(bytes)@ == old(bytes)@ + le32(v),
{
    bytes.push((v % 256) as u8);
    bytes.push(((v / 0x100) % 256) as u8);
    bytes.push(((v / 0x10000) % 256) as u8);
    bytes.push((v / 0x1000000) as u8);
    assert(bytes@ =~= old(bytes)@ + le32(v));
}

fn push_all(bytes: &mut Vec<u8>, src: &[u8])
    ensures
        final(bytes)@ == old(bytes)@ + src@,
{
    let mut i: usize = 0;
    while i < src.len()
        invariant
            0 <= i <= src@.len(),
            bytes@ == old(bytes)@ + src@.subrange(0, i as int),
        decreases src@.len() - i,
    {
        bytes.push(src[i]);
        i = i + 1;
        assert(src@.subrange(0, i as int) =~= src@.subrange(0, i - 1).push(src@[i - 1]));
    }
    assert(src@.subrange(0, src@.len() as int) =~= src@);
}

} // verus!

verus! {

/// Serial number that a response buffer carries.
pub open spec fn response_serial(data: Seq<u8>) -> Seq<u8> {
    data.subrange(7, 11)
}

/// Embedded frame that a response buffer carries.
pub open spec fn response_frame(data: Seq<u8>) -> Seq<u8> {
    payload_frame(data.subrange(RESPONSE_HEADER_LEN as int, data.len() as int))
}

/// A request frame laid out as a response: the request's two-byte sensor-type
/// field narrowed to the response's one status byte, every other byte kept.
pub open spec fn as_response_layout(request: Seq<u8>) -> Seq<u8> {
    request.subrange(0, 13) + request.subrange(14, request.len() as int)
}

/// Decoding a response field by field is reading the serial and embedded
/// frame at their fixed places.
pub proof fn lemma_decoded_fields(resp: Response, data: Seq<u8>)
    requires
        data.len() >= RESPONSE_MIN_LEN,
        resp.decodes(data),
    ensures
        resp.header.logger_serial@ == response_serial(data),
        resp.payload.rtu_frame@ == response_frame(data),
{
}

/// Encoding a request and decoding the same bytes in the response layout
/// gives back the serial number and the embedded frame, for every header and
/// payload field and every embedded frame whose length fits the length field.
pub proof fn lemma_round_trip(req: Request)
    requires
        req.payload.modbus_rtu_frame@.len() <= MAX_EMBEDDED_FRAME_LEN,
    ensures
        as_response_layout(req.spec_bytes()).len() >= RESPONSE_MIN_LEN,
        response_serial(as_response_layout(req.spec_bytes())) == req.header.logger_serial@,
        response_frame(as_response_layout(req.spec_bytes())) == req.payload.modbus_rtu_frame@,
        forall|resp: Response| #[trigger]
            resp.decodes(as_response_layout(req.spec_bytes())) ==> resp.header.logger_serial@
                == req.header.logger_serial@ && resp.payload.rtu_frame@
                == req.payload.modbus_rtu_frame@,
{
    let bytes = req.spec_bytes();
    let data = as_response_layout(bytes);
    let frame = req.payload.modbus_rtu_frame@;
    assert(response_serial(data) =~= req.header.logger_serial@);
    assert(response_frame(data) =~= frame);
    assert forall|resp: Response| #[trigger] resp.decodes(data) implies resp.header.logger_serial@
        == req.header.logger_serial@ && resp.payload.rtu_frame@ == frame by {
        lemma_decoded_fields(resp, data);
    }
}

/// Two requests with the same fields encode to the same bytes, checksum
/// included.
pub proof fn lemma_encoding_deterministic(a: Request, b: Request)
    requires
        a.header.msg_id == b.header.msg_id,
        a.header.logger_serial@ == b.header.logger_serial@,
        a.payload.frame_type == b.payload.frame_type,
        a.payload.sensor_type == b.payload.sensor_type,
        a.payload.total_working_second == b.payload.total_working_second,
        a.payload.uptime_second == b.payload.uptime_second,
        a.payload.offset_seconds == b.payload.offset_seconds,
        a.payload.modbus_rtu_frame@ == b.payload.modbus_rtu_frame@,
    ensures
        a.spec_bytes() == b.spec_bytes(),
        checksum_of(a.spec_body()) == checksum_of(b.spec_body()),
{
}

/// Sums of two sequences that differ in one place differ by the difference
/// of the bytes in that place.
proof fn lemma_byte_sum_one_change(s: Seq<u8>, t: Seq<u8>, i: int)
    requires
        s.len() == t.len(),
        0 <= i < s.len(),
        forall|j: int| 0 <= j < s.len() && j != i ==> s[j] == t[j],
    ensures
        byte_sum(s) - byte_sum(t) == s[i] - t[i],
    decreases s.len(),
{
    if s.len() - 1 == i {
        assert(s.drop_last() =~= t.drop_last());
    } else {
        lemma_byte_sum_one_change(s.drop_last(), t.drop_last(), i);
    }
}

/// Checksums of two assembled frames that differ in exactly one byte after
/// the start marker differ.
proof fn lemma_checksum_one_change(s: Seq<u8>, t: Seq<u8>, i: int)
    requires
        s.len() == t.len(),
        1 <= i < s.len(),
        s[i] != t[i],
        forall|j: int| 0 <= j < s.len() && j != i ==> s[j] == t[j],
    ensures
        checksum_of(s) != checksum_of(t),
{
    let ss = s.drop_first();
    let tt = t.drop_first();
    assert forall|j: int| 0 <= j < ss.len() && j != i - 1 implies ss[j] == tt[j] by {
        assert(s[j + 1] == t[j + 1]);
    }
    lemma_byte_sum_one_change(ss, tt, i - 1);
    let d = byte_sum(ss) - byte_sum(tt);
    assert(-256 < d < 256 && d != 0);
    assert(byte_sum(ss) % 256 != byte_sum(tt) % 256);
}

/// Changing one payload byte of a request changes its checksum byte.
pub proof fn lemma_single_byte_change_changes_checksum(a: Request, b: Request, i: int)
    requires
        a.payload.modbus_rtu_frame@.len() == b.payload.modbus_rtu_frame@.len(),
        RESPONSE_HEADER_LEN <= i < a.spec_body().len(),
        a.spec_body()[i] != b.spec_body()[i],
        forall|j: int|
            0 <= j < a.spec_body().len() && j != i ==> a.spec_body()[j] == b.spec_body()[j],
    ensures
        a.spec_bytes()[a.spec_bytes().len() - 2] != b.spec_bytes()[b.spec_bytes().len() - 2],
{
    let s = a.spec_body();
    let t = b.spec_body();
    assert(s.len() == t.len());
    lemma_checksum_one_change(s, t, i);
    assert(a.spec_bytes()[a.spec_bytes().len() - 2] == checksum_of(s));
    assert(b.spec_bytes()[b.spec_bytes().len() - 2] == checksum_of(t));
}

/// The length field of an encoded request is the fixed payload length plus
/// the length of the embedded frame.
pub proof fn lemma_length_field(req: Request)
    requires
        req.payload.modbus_rtu_frame@.len() <= MAX_EMBEDDED_FRAME_LEN,
    ensures
        from_le16(req.spec_bytes()[1], req.spec_bytes()[2]) == PAYLOAD_FIXED_LEN
            + req.payload.modbus_rtu_frame@.len(),
{
    let n = (PAYLOAD_FIXED_LEN + req.payload.modbus_rtu_frame@.len()) as u16;
    assert(req.spec_bytes()[1] == (n % 256) as u8);
    assert(req.spec_bytes()[2] == (n / 256) as u8);
}

} // verus!
