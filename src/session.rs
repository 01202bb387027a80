use vstd::prelude::*;
use crate::codec::{
    as_response_layout, response_frame, response_serial, wire_body, wire_frame, DecodeError,
    Request, RequestFrameType, RequestHeader, RequestPayload, Response, MAX_EMBEDDED_FRAME_LEN,
    RESPONSE_HEADER_LEN, RESPONSE_MIN_LEN,
};

verus! {

/// Bytes read back for the serial-number handshake.
pub const HANDSHAKE_RESPONSE_LEN: usize = 29;

/// Bytes read back for one embedded-frame exchange.
pub const EXCHANGE_RESPONSE_LEN: usize = 140;

/// The frame that asks an inverter behind a logger with serial `serial` to
/// handle the embedded frame `frame`.
pub open spec fn inverter_request(serial: Seq<u8>, frame: Seq<u8>) -> Seq<u8> {
    wire_frame(wire_body(0, serial, 0x02, 0, 0, 0, 0, frame))
}

/// Protocol state of one data-logger session: the logger's serial number,
/// all zero until a handshake response has been accepted.
pub struct SolarmanDevice {
    logger_serial: [u8; 4],
}

impl View for SolarmanDevice {
    type V = Seq<u8>;

    closed spec fn view(&self) -> Seq<u8> {
        self.logger_serial@
    }
}

impl SolarmanDevice {
    /// A session whose serial number is not known yet.
    pub fn new() -> (r: SolarmanDevice)
        ensures
            r@ == seq![0u8, 0u8, 0u8, 0u8],
    {
        let r = SolarmanDevice { logger_serial: [0; 4] };
        proof {
            assert(r@ =~= seq![0u8, 0u8, 0u8, 0u8]);
        }
        r
    }

    pub fn logger_serial(&self) -> (r: [u8; 4])
        ensures
            r@ == self@,
    {
        proof {
            assert(self.logger_serial@ == self@);
        }
        self.logger_serial
    }

    fn build_request(&self, frame: &[u8]) -> (r: Vec<u8>)
        requires
            frame@.len() <= MAX_EMBEDDED_FRAME_LEN,
        ensures
            r@ == inverter_request(self@, frame@),
    {
        let request = Request {
            header: RequestHeader { msg_id: 0, logger_serial: self.logger_serial },
            payload: RequestPayload {
                frame_type: RequestFrameType::SolarInverter,
                sensor_type: 0,
                total_working_second: 0,
                uptime_second: 0,
                offset_seconds: 0,
                modbus_rtu_frame: frame,
            },
        };
        request.to_bytes()
    }

    /// The handshake request: the current serial number and an empty embedded
    /// frame.
    pub fn serial_request(&self) -> (r: Vec<u8>)
        ensures
            r@ == inverter_request(self@, Seq::<u8>::empty()),
    {
        let empty: [u8; 0] = [];
        let r = self.build_request(empty.as_slice());
        proof {
            assert(empty@ =~= Seq::<u8>::empty());
        }
        r
    }

    /// Takes the serial number from a handshake response. On an error the
    /// session is left as it was.
    pub fn adopt_serial(&mut self, response: &[u8]) -> (r: Result<(), DecodeError>)
        ensures
            match r {
                Ok(()) => response@.len() >= RESPONSE_MIN_LEN && final(self)@ == response_serial(
                    response@,
                ),
                Err(e) => final(self)@ == old(self)@ && if response@.len()
                    < RESPONSE_HEADER_LEN {
                    e == DecodeError::HeaderTooShort
                } else {
                    response@.len() < RESPONSE_MIN_LEN && e == DecodeError::PayloadTooShort
                },
            },
    {
        match Response::from_bytes(response) {
            Ok(decoded) => {
                self.logger_serial = decoded.header.logger_serial;
                Ok(())
            },
            Err(e) => Err(e),
        }
    }

    /// The request that carries the embedded frame `frame` to the inverter.
    pub fn modbus_request(&self, frame: &[u8]) -> (r: Vec<u8>)
        requires
            frame@.len() <= MAX_EMBEDDED_FRAME_LEN,
        ensures
            r@ == inverter_request(self@, frame@),
    {
        self.build_request(frame)
    }

    /// The embedded frame of an exchange response.
    pub fn modbus_response(response: &[u8]) -> (r: Result<Vec<u8>, DecodeError>)
        ensures
            match r {
                Ok(frame) => response@.len() >= RESPONSE_MIN_LEN && frame@ == response_frame(
                    response@,
                ),
                Err(e) => if response@.len() < RESPONSE_HEADER_LEN {
                    e == DecodeError::HeaderTooShort
                } else {
                    response@.len() < RESPONSE_MIN_LEN && e == DecodeError::PayloadTooShort
                },
            },
    {
        match Response::from_bytes(response) {
            Ok(decoded) => Ok(decoded.payload.rtu_frame),
            Err(e) => Err(e),
        }
    }
}

/// A request built by a session, read back in the response layout, gives
/// the session's serial number and the embedded frame that it carried.
pub proof fn lemma_session_round_trip(serial: Seq<u8>, frame: Seq<u8>)
    requires
        serial.len() == 4,
        frame.len() <= MAX_EMBEDDED_FRAME_LEN,
    ensures
        as_response_layout(inverter_request(serial, frame)).len() >= RESPONSE_MIN_LEN,
        response_serial(as_response_layout(inverter_request(serial, frame))) == serial,
        response_frame(as_response_layout(inverter_request(serial, frame))) == frame,
{
    let data = as_response_layout(inverter_request(serial, frame));
    assert(response_serial(data) =~= serial);
    assert(response_frame(data) =~= frame);
}

} // verus!
