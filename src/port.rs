use vstd::prelude::*;

verus! {

/// The USB serial number of the board this link drives.
pub const IDENTITY_TOKEN: &'static str = "picoplayground";

/// What a USB endpoint reports about its device.
#[derive(Debug)]
pub struct UsbInfo {
    pub vid: u16,
    pub pid: u16,
    pub serial_number: Option<String>,
    pub manufacturer: Option<String>,
    pub product: Option<String>,
    pub interface: Option<u8>,
}

/// The class of a serial endpoint.
#[derive(Debug)]
pub enum PortKind {
    UsbPort(UsbInfo),
    BluetoothPort,
    PciPort,
    Unknown,
}

/// One endpoint as the operating system enumerated it.
#[derive(Debug)]
pub struct PortDescriptor {
    pub port_name: String,
    pub port_type: PortKind,
}

/// Why no port could be chosen.
#[derive(Debug, Clone, Copy, PartialEq, Eq, Structural)]
pub enum ResolveError {
    /// No enumerated port carries the expected serial number.
    NotFound,
}

/// Two characters are equal once ASCII upper-case letters are lowered.
pub open spec fn ascii_fold_eq(a: char, b: char) -> bool {
    ||| a == b
    ||| ('A' <= a <= 'Z' && b as u32 == a as u32 + 32)
    ||| ('A' <= b <= 'Z' && a as u32 == b as u32 + 32)
}

/// Two strings are equal once ASCII upper-case letters are lowered.
pub open spec fn ascii_case_insensitive_eq(s: Seq<char>, t: Seq<char>) -> bool {
    &&& s.len() == t.len()
    &&& forall|i: int| 0 <= i < s.len() ==> ascii_fold_eq(#[trigger] s[i], t[i])
}

/// The serial number a port reports, empty where it reports none or is not USB.
pub open spec fn serial_of(p: PortDescriptor) -> Seq<char> {
    match p.port_type {
        PortKind::UsbPort(info) => match info.serial_number {
            Some(s) => s@,
            None => Seq::empty(),
        },
        _ => Seq::empty(),
    }
}

/// A USB port whose serial number matches the identity token, ignoring ASCII case.
pub open spec fn is_target(p: PortDescriptor) -> bool {
    &&& p.port_type is UsbPort
    &&& ascii_case_insensitive_eq(serial_of(p), IDENTITY_TOKEN@)
}

/// Relies on str::eq_ignore_ascii_case: equality after lowering ASCII letters.
#[verifier::external_body]
fn eq_ignore_ascii_case(a: &str, b: &str) -> (r: bool)
    ensures
        r == ascii_case_insensitive_eq(a@, b@),
{
    a.eq_ignore_ascii_case(b)
}

/// Whether `p` is the board: a USB port whose serial number matches the token.
pub fn port_matches(p: &PortDescriptor) -> (r: bool)
    ensures
        r == is_target(*p),
{
    match &p.port_type {
        PortKind::UsbPort(info) => {
            let serial: &str = match &info.serial_number {
                Some(s) => s.as_str(),
                None => "",
            };
            proof {
                reveal_strlit("");
            }
            eq_ignore_ascii_case(serial, IDENTITY_TOKEN)
        },
        _ => false,
    }
}

/// The name of the first port, in the order given, that is the board.
pub fn find_port(ports: &Vec<PortDescriptor>) -> (r: Result<String, ResolveError>)
    ensures
        match r {
            Ok(name) => exists|i: int|
                0 <= i < ports@.len() && is_target(#[trigger] ports@[i]) && name@
                    == ports@[i].port_name@ && forall|j: int|
                    0 <= j < i ==> !is_target(#[trigger] ports@[j]),
            Err(e) => e == ResolveError::NotFound && forall|i: int|
                0 <= i < ports@.len() ==> !is_target(#[trigger] ports@[i]),
        },
{
    let mut i: usize = 0;
    while i < ports.len()
        invariant
            i <= ports@.len(),
            forall|j: int| 0 <= j < i ==> !is_target(#[trigger] ports@[j]),
        decreases ports@.len() - i,
    {
        if port_matches(&ports[i]) {
            return Ok(ports[i].port_name.clone());
        }
        i = i + 1;
    }
    Err(ResolveError::NotFound)
}

} // verus!
