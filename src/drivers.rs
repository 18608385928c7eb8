use vstd::prelude::*;
use vstd::string::StringSliceAdditionalSpecFns;
use vstd::utf8::valid_utf8;

verus! {

/// Outcome of a native driver call that reports `0` on success and an error code
/// otherwise.
pub fn status_result(status: i32) -> (r: Result<(), i32>)
    ensures
        status == 0 ==> r is Ok,
        status != 0 ==> r == Err::<(), i32>(status),
{
    if status == 0 {
        Ok(())
    } else {
        Err(status)
    }
}

/// Handle to the CAN transport, which segments payloads with ISO-TP in the native
/// driver. Holding one means the driver was initialised.
pub struct CanBus {
    _private: (),
}

impl CanBus {
    /// The handle, once the driver's initialisation returned `status`; a non-zero
    /// status is the driver's error code.
    pub fn from_init_status(status: i32) -> (r: Result<CanBus, i32>)
        ensures
            status == 0 <==> r is Ok,
            status != 0 ==> (r matches Err(e) && e == status),
    {
        match status_result(status) {
            Ok(()) => Ok(CanBus { _private: () }),
            Err(e) => Err(e),
        }
    }

    /// Outcome of an ISO-TP send whose driver call returned `status`.
    pub fn send_result(&self, status: i32) -> (r: Result<(), i32>)
        ensures
            status == 0 ==> r is Ok,
            status != 0 ==> r == Err::<(), i32>(status),
    {
        status_result(status)
    }
}

/// Handle to a register-table protocol server. Holding one means the server was
/// initialised.
pub struct ModbusSlave {
    _private: (),
}

impl ModbusSlave {
    /// The handle, once the server's initialisation returned `status`; a non-zero
    /// status is the server's error code.
    pub fn from_init_status(status: i32) -> (r: Result<ModbusSlave, i32>)
        ensures
            status == 0 <==> r is Ok,
            status != 0 ==> (r matches Err(e) && e == status),
    {
        match status_result(status) {
            Ok(()) => Ok(ModbusSlave { _private: () }),
            Err(e) => Err(e),
        }
    }

    /// Outcome of registering a holding register whose server call returned
    /// `status`.
    pub fn register_result(&self, status: i32) -> (r: Result<(), i32>)
        ensures
            status == 0 ==> r is Ok,
            status != 0 ==> r == Err::<(), i32>(status),
    {
        status_result(status)
    }
}

/// Relies on core::str::from_utf8: it accepts exactly the well-formed UTF-8 byte
/// strings and then views the same bytes as text.
#[verifier::external_body]
fn decode_utf8(data: &[u8]) -> (r: Option<&str>)
    ensures
        r is Some <==> valid_utf8(data@),
        r matches Some(s) ==> s.spec_bytes() == data@,
{
    core::str::from_utf8(data).ok()
}

/// What to report for a payload received over CAN: the payload as text when it is
/// well-formed UTF-8, or `None` when it must be shown as raw bytes.
pub fn receive_callback(data: &[u8]) -> (r: Option<&str>)
    ensures
        r is Some <==> valid_utf8(data@),
        r matches Some(s) ==> s.spec_bytes() == data@,
{
    decode_utf8(data)
}

} // verus!
