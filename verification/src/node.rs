//! Device nodes: their names and their paths.

use crate::text::{digit_text, push_digit};
use vstd::prelude::*;
use vstd::string::*;

verus! {

/// Whether the bytes are `hidraw` and at least one decimal digit.
pub open spec fn is_node_name(name: Seq<u8>) -> bool {
    &&& name.len() > 6
    &&& name[0] == 'h' as u8
    &&& name[1] == 'i' as u8
    &&& name[2] == 'd' as u8
    &&& name[3] == 'r' as u8
    &&& name[4] == 'a' as u8
    &&& name[5] == 'w' as u8
    &&& forall|i: int| 6 <= i < name.len() ==> '0' as u8 <= #[trigger] name[i] <= '9' as u8
}

/// The characters of ASCII bytes.
pub open spec fn ascii(bytes: Seq<u8>) -> Seq<char> {
    Seq::new(bytes.len(), |i: int| bytes[i] as char)
}

/// The path of the node of that name.
pub open spec fn node_path(name: Seq<u8>) -> Seq<char> {
    "/dev/"@ + ascii(name)
}

/// Where the kernel publishes the identity of the node of that name.
pub open spec fn uevent_path(name: Seq<u8>) -> Seq<char> {
    "/sys/class/hidraw/"@ + ascii(name) + "/device/uevent"@
}

/// Whether the bytes are `/dev/` and a node name, and nothing else.
pub open spec fn is_node_path(path: Seq<u8>) -> bool {
    &&& path.len() > 5
    &&& path[0] == '/' as u8
    &&& path[1] == 'd' as u8
    &&& path[2] == 'e' as u8
    &&& path[3] == 'v' as u8
    &&& path[4] == '/' as u8
    &&& is_node_name(path.skip(5))
}

/// Whether a name is that of a hidraw node.
pub fn valid_node_name(name: &[u8]) -> (valid: bool)
    ensures
        valid == is_node_name(name@),
{
    if name.len() <= 6 || name[0] != 'h' as u8 || name[1] != 'i' as u8 || name[2] != 'd' as u8
        || name[3] != 'r' as u8 || name[4] != 'a' as u8 || name[5] != 'w' as u8 {
        return false;
    }
    let mut index: usize = 6;
    while index < name.len()
        invariant
            6 <= index <= name.len(),
            forall|i: int| 6 <= i < index ==> '0' as u8 <= #[trigger] name@[i] <= '9' as u8,
        decreases name.len() - index,
    {
        if name[index] < '0' as u8 || name[index] > '9' as u8 {
            return false;
        }
        index += 1;
    }
    true
}

proof fn lemma_digit_text(digit: int)
    requires
        0 <= digit < 10,
    ensures
        digit_text(digit) == seq![('0' as int + digit) as char],
{
    reveal_strlit("0");
    reveal_strlit("1");
    reveal_strlit("2");
    reveal_strlit("3");
    reveal_strlit("4");
    reveal_strlit("5");
    reveal_strlit("6");
    reveal_strlit("7");
    reveal_strlit("8");
    reveal_strlit("9");
    assert(digit_text(digit) =~= seq![('0' as int + digit) as char]);
}

fn push_name(out: &mut String, name: &[u8])
    requires
        is_node_name(name@),
    ensures
        final(out)@ == old(out)@ + ascii(name@),
{
    out.append("hidraw");
    proof {
        reveal_strlit("hidraw");
        assert("hidraw"@ =~= ascii(name@.take(6)));
    }
    let mut index: usize = 6;
    while index < name.len()
        invariant
            6 <= index <= name.len(),
            is_node_name(name@),
            out@ == old(out)@ + ascii(name@.take(index as int)),
        decreases name.len() - index,
    {
        push_digit(out, name[index] - '0' as u8);
        proof {
            lemma_digit_text(name@[index as int] - '0' as u8);
            assert(ascii(name@.take(index + 1)) =~= ascii(name@.take(index as int)).push(
                name@[index as int] as char,
            ));
            assert(out@ =~= old(out)@ + ascii(name@.take(index + 1)));
        }
        index += 1;
    }
    assert(name@.take(index as int) =~= name@);
}

/// Where to read the identity of the node of that name.
pub fn uevent_path_of(name: &[u8]) -> (path: String)
    requires
        is_node_name(name@),
    ensures
        path@ == uevent_path(name@),
{
    let mut path = String::new();
    path.append("/sys/class/hidraw/");
    push_name(&mut path, name);
    path.append("/device/uevent");
    assert(path@ =~= uevent_path(name@));
    path
}

/// The node name in a direct `/dev/hidrawN` path; `None` for any other path.
pub fn node_name(path: &[u8]) -> (name: Option<Vec<u8>>)
    ensures
        match name {
            Some(name) => is_node_path(path@) && name@ == path@.skip(5),
            None => !is_node_path(path@),
        },
{
    if path.len() <= 5 || path[0] != '/' as u8 || path[1] != 'd' as u8 || path[2] != 'e' as u8
        || path[3] != 'v' as u8 || path[4] != '/' as u8 {
        return None;
    }
    let mut name: Vec<u8> = Vec::new();
    let mut index: usize = 5;
    while index < path.len()
        invariant
            5 <= index <= path.len(),
            name@ == path@.subrange(5, index as int),
        decreases path.len() - index,
    {
        name.push(path[index]);
        index += 1;
        assert(name@ =~= path@.subrange(5, index as int));
    }
    assert(name@ =~= path@.skip(5));
    if valid_node_name(name.as_slice()) {
        Some(name)
    } else {
        None
    }
}

/// A matching sysfs device; its identity is checked again when it is opened.
#[derive(Debug, PartialEq, Eq)]
pub struct DeviceInfo {
    path: String,
}

impl View for DeviceInfo {
    type V = Seq<char>;

    closed spec fn view(&self) -> Seq<char> {
        self.path@
    }
}

/// Whether a text is the path of a node.
pub open spec fn names_node(path: Seq<char>) -> bool {
    exists|name: Seq<u8>| #[trigger] is_node_name(name) && path == node_path(name)
}

impl DeviceInfo {
    #[verifier::type_invariant]
    closed spec fn valid(self) -> bool {
        names_node(self.path@)
    }

    /// The device at the node of that name.
    pub(crate) fn of_name(name: &[u8]) -> (device: DeviceInfo)
        requires
            is_node_name(name@),
        ensures
            device@ == node_path(name@),
    {
        let mut path = String::new();
        path.append("/dev/");
        push_name(&mut path, name);
        assert(path@ =~= node_path(name@));
        DeviceInfo { path }
    }

    /// Verified node path, `/dev/hidrawN`.
    pub fn path(&self) -> (path: &str)
        ensures
            path@ == self@,
            names_node(path@),
    {
        proof {
            use_type_invariant(self);
        }
        self.path.as_str()
    }
}

impl Clone for DeviceInfo {
    fn clone(&self) -> (device: Self)
        ensures
            device@ == self@,
    {
        proof {
            use_type_invariant(self);
        }
        DeviceInfo { path: self.path.clone() }
    }
}

/// The bytes of a node path are those of `/dev/` and a node name, and give it back.
pub proof fn lemma_node_path_bytes(path: &str)
    requires
        names_node(path@),
    ensures
        is_node_path(path.spec_bytes()),
        node_path(path.spec_bytes().skip(5)) == path@,
{
    let name = choose|name: Seq<u8>| #[trigger] is_node_name(name) && path@ == node_path(name);
    reveal_strlit("/dev/");
    assert forall|i: int| 0 <= i < path@.len() implies (path@[i] as nat) < 128 by {
        if i >= 5 {
            assert(path@[i] == name[i - 5] as char);
        }
    }
    assert(vstd::string::is_ascii(path));
    vstd::string::is_ascii_spec_bytes(path);
    let bytes = path.spec_bytes();
    assert(bytes.len() == path@.len());
    assert forall|i: int| 0 <= i < name.len() implies bytes[i + 5] == name[i] by {
        assert(path@[i + 5] == name[i] as char);
    }
    assert(bytes.skip(5) =~= name);
}

} // verus!
