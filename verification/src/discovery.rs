//! The search for the supported device among the hidraw nodes.

use crate::error::{io_error, is_io_error, TransportError};
use crate::identity::{identifies, matching_identity};
use crate::node::{
    ascii, is_node_name, node_path, uevent_path, uevent_path_of, valid_node_name, DeviceInfo,
};
use crate::os::{OsError, OsErrorKind};
use vstd::prelude::*;
use vstd::string::*;

verus! {

/// One entry of the hidraw class directory, with what reading its identity gave.
#[derive(Debug, PartialEq, Eq)]
pub struct SysfsEntry {
    /// File name of the entry.
    pub name: Vec<u8>,
    /// Contents of its `device/uevent` file.
    pub uevent: Result<String, OsError>,
}

/// What walking the directory gave for one entry.
pub type ListedEntry = Result<SysfsEntry, OsError>;

/// Whether an entry ends the search: it could not be listed, or the identity of a
/// node could not be read for a reason other than that the node is gone.
pub open spec fn is_fatal(entry: ListedEntry) -> bool {
    match entry {
        Err(_) => true,
        Ok(found) => is_node_name(found.name@) && match found.uevent {
            Err(error) => error.kind != OsErrorKind::NotFound,
            Ok(_) => false,
        },
    }
}

/// The error with which an entry ends the search.
pub open spec fn ends_with(entry: ListedEntry, error: TransportError) -> bool {
    match entry {
        Err(source) => is_io_error(
            error,
            "enumerate hidraw node"@,
            "/sys/class/hidraw"@,
            source,
        ),
        Ok(found) => match found.uevent {
            Err(source) => is_io_error(
                error,
                "read HID identity"@,
                uevent_path(found.name@),
                source,
            ),
            Ok(_) => false,
        },
    }
}

/// Index of the first entry that ends the search, or the number of entries.
pub open spec fn first_fatal(entries: Seq<ListedEntry>) -> int
    decreases entries.len(),
{
    if entries.len() == 0 || is_fatal(entries[0]) {
        0
    } else {
        1 + first_fatal(entries.skip(1))
    }
}

/// Whether an entry is a node of the supported device.
pub open spec fn is_match(entry: ListedEntry) -> bool {
    match entry {
        Err(_) => false,
        Ok(found) => is_node_name(found.name@) && match found.uevent {
            Err(_) => false,
            Ok(text) => identifies(text@),
        },
    }
}

/// The node paths of the supported devices, in the order of the entries.
pub open spec fn matching_paths(entries: Seq<ListedEntry>) -> Seq<Seq<char>>
    decreases entries.len(),
{
    if entries.len() == 0 {
        seq![]
    } else if is_match(entries.last()) {
        matching_paths(entries.drop_last()).push(node_path(entries.last()->Ok_0.name@))
    } else {
        matching_paths(entries.drop_last())
    }
}

/// Lexicographic order of texts.
pub open spec fn text_le(a: Seq<char>, b: Seq<char>) -> bool
    decreases a.len(),
{
    if a.len() == 0 {
        true
    } else if b.len() == 0 {
        false
    } else if a[0] != b[0] {
        a[0] < b[0]
    } else {
        text_le(a.skip(1), b.skip(1))
    }
}

/// Whether texts are in lexicographic order.
pub open spec fn in_order(texts: Seq<Seq<char>>) -> bool {
    forall|i: int, j: int|
        0 <= i <= j < texts.len() ==> text_le(#[trigger] texts[i], #[trigger] texts[j])
}

/// The paths of devices.
pub open spec fn paths_of(devices: Seq<DeviceInfo>) -> Seq<Seq<char>> {
    Seq::new(devices.len(), |i: int| devices[i]@)
}

/// The node paths of names.
pub open spec fn texts_of(names: Seq<Vec<u8>>) -> Seq<Seq<char>> {
    Seq::new(names.len(), |i: int| node_path(names[i]@))
}

/// A text is not after itself.
pub proof fn lemma_text_le_reflexive(a: Seq<char>)
    ensures
        text_le(a, a),
    decreases a.len(),
{
    if a.len() > 0 {
        lemma_text_le_reflexive(a.skip(1));
    }
}

/// Of two texts one is not after the other.
pub proof fn lemma_text_le_total(a: Seq<char>, b: Seq<char>)
    ensures
        text_le(a, b) || text_le(b, a),
    decreases a.len(),
{
    if a.len() > 0 && b.len() > 0 && a[0] == b[0] {
        lemma_text_le_total(a.skip(1), b.skip(1));
    }
}

/// The order is transitive.
pub proof fn lemma_text_le_transitive(a: Seq<char>, b: Seq<char>, c: Seq<char>)
    requires
        text_le(a, b),
        text_le(b, c),
    ensures
        text_le(a, c),
    decreases a.len(),
{
    if a.len() > 0 && b.len() > 0 && c.len() > 0 && a[0] == b[0] && b[0] == c[0] {
        lemma_text_le_transitive(a.skip(1), b.skip(1), c.skip(1));
    }
}

proof fn lemma_text_le_prefix(prefix: Seq<char>, a: Seq<char>, b: Seq<char>)
    ensures
        text_le(prefix + a, prefix + b) == text_le(a, b),
    decreases prefix.len(),
{
    if prefix.len() == 0 {
        assert(prefix + a =~= a);
        assert(prefix + b =~= b);
    } else {
        assert((prefix + a).skip(1) =~= prefix.skip(1) + a);
        assert((prefix + b).skip(1) =~= prefix.skip(1) + b);
        lemma_text_le_prefix(prefix.skip(1), a, b);
    }
}

/// Whether the node of name `a` is not after that of name `b`.
fn name_le(a: &Vec<u8>, b: &Vec<u8>) -> (before: bool)
    ensures
        before == text_le(node_path(a@), node_path(b@)),
{
    let mut index: usize = 0;
    proof {
        lemma_text_le_prefix("/dev/"@, ascii(a@), ascii(b@));
        assert(ascii(a@).skip(0) =~= ascii(a@));
        assert(ascii(b@).skip(0) =~= ascii(b@));
    }
    while index < a.len() && index < b.len() && a[index] == b[index]
        invariant
            index <= a@.len(),
            index <= b@.len(),
            text_le(node_path(a@), node_path(b@)) == text_le(
                ascii(a@).skip(index as int),
                ascii(b@).skip(index as int),
            ),
        decreases a@.len() - index,
    {
        assert(ascii(a@).skip(index as int).skip(1) =~= ascii(a@).skip(index + 1));
        assert(ascii(b@).skip(index as int).skip(1) =~= ascii(b@).skip(index + 1));
        index += 1;
    }
    if index == a.len() {
        true
    } else if index == b.len() {
        false
    } else {
        a[index] < b[index]
    }
}

/// Insert a name into names that are in order, after all that are not after it.
fn insert_in_order(names: &mut Vec<Vec<u8>>, name: Vec<u8>)
    requires
        in_order(texts_of(old(names)@)),
        is_node_name(name@),
        forall|i: int| 0 <= i < old(names)@.len() ==> is_node_name(#[trigger] old(names)@[i]@),
    ensures
        in_order(texts_of(final(names)@)),
        forall|i: int| 0 <= i < final(names)@.len() ==> is_node_name(#[trigger] final(names)@[i]@),
        texts_of(final(names)@).to_multiset() == texts_of(old(names)@).to_multiset().insert(
            node_path(name@),
        ),
{
    let mut place: usize = 0;
    while place < names.len() && name_le(&names[place], &name)
        invariant
            place <= names@.len(),
            names@ == old(names)@,
            forall|i: int|
                0 <= i < place ==> text_le(#[trigger] texts_of(names@)[i], node_path(name@)),
        decreases names@.len() - place,
    {
        place += 1;
    }
    let ghost before = texts_of(names@);
    let ghost path = node_path(name@);
    proof {
        lemma_text_le_reflexive(path);
        assert forall|j: int| place <= j < before.len() implies text_le(
            path,
            #[trigger] before[j],
        ) by {
            lemma_text_le_total(path, before[place as int]);
            lemma_text_le_transitive(path, before[place as int], before[j]);
        }
    }
    names.insert(place, name);
    proof {
        let after = texts_of(names@);
        assert(after =~= before.insert(place as int, path));
        vstd::seq_lib::to_multiset_insert(before, place as int, path);
        assert forall|i: int, j: int| 0 <= i <= j < after.len() implies text_le(
            #[trigger] after[i],
            #[trigger] after[j],
        ) by {
            let si = if i > place {
                i - 1
            } else {
                i
            };
            let sj = if j > place {
                j - 1
            } else {
                j
            };
            if i != place && j != place {
                assert(after[i] == before[si] && after[j] == before[sj]);
            } else if i == place && j != place {
                assert(after[j] == before[sj]);
            } else if j == place && i != place {
                assert(after[i] == before[si]);
            }
        }
    }
}

/// Whether what was read of a node identifies the supported device.
pub fn identity_at(name: &[u8], uevent: Result<String, OsError>) -> (matching: Result<
    bool,
    TransportError,
>)
    requires
        is_node_name(name@),
    ensures
        match uevent {
            Ok(text) => matching == Ok::<bool, TransportError>(identifies(text@)),
            Err(source) => match matching {
                Ok(_) => false,
                Err(error) => is_io_error(
                    error,
                    "read HID identity"@,
                    uevent_path(name@),
                    source,
                ),
            },
        },
{
    match uevent {
        Ok(text) => Ok(matching_identity(text.as_str())),
        Err(source) => Err(io_error("read HID identity", uevent_path_of(name), source)),
    }
}

proof fn lemma_first_fatal(entries: Seq<ListedEntry>, index: int)
    requires
        0 <= index <= entries.len(),
        index < entries.len() ==> is_fatal(entries[index]),
        forall|i: int| 0 <= i < index ==> !is_fatal(#[trigger] entries[i]),
    ensures
        first_fatal(entries) == index,
    decreases entries.len(),
{
    if index > 0 {
        assert forall|i: int| 0 <= i < index - 1 implies !is_fatal(
            #[trigger] entries.skip(1)[i],
        ) by {
            assert(entries.skip(1)[i] == entries[i + 1]);
        }
        lemma_first_fatal(entries.skip(1), index - 1);
    }
}

/// Whether an entry ends the search, so that nothing after it need be looked at.
pub fn ends_search(entry: &ListedEntry) -> (fatal: bool)
    ensures
        fatal == is_fatal(*entry),
{
    match entry {
        Err(_) => true,
        Ok(found) => valid_node_name(found.name.as_slice()) && match &found.uevent {
            Err(error) => error.kind != OsErrorKind::NotFound,
            Ok(_) => false,
        },
    }
}

/// What one entry adds to the search.
fn observe(names: &mut Vec<Vec<u8>>, entry: ListedEntry) -> (observed: Result<(), TransportError>)
    requires
        in_order(texts_of(old(names)@)),
        forall|i: int| 0 <= i < old(names)@.len() ==> is_node_name(#[trigger] old(names)@[i]@),
    ensures
        match observed {
            Err(error) => is_fatal(entry) && ends_with(entry, error),
            Ok(_) => {
                &&& !is_fatal(entry)
                &&& in_order(texts_of(final(names)@))
                &&& forall|i: int|
                    0 <= i < final(names)@.len() ==> is_node_name(#[trigger] final(names)@[i]@)
                &&& texts_of(final(names)@).to_multiset() == (if is_match(entry) {
                    texts_of(old(names)@).to_multiset().insert(node_path(entry->Ok_0.name@))
                } else {
                    texts_of(old(names)@).to_multiset()
                })
            },
        },
{
    match entry {
        Err(source) => Err(
            io_error(
                "enumerate hidraw node",
                String::from_str("/sys/class/hidraw"),
                source,
            ),
        ),
        Ok(found) => {
            if !valid_node_name(found.name.as_slice()) {
                return Ok(());
            }
            match identity_at(found.name.as_slice(), found.uevent) {
                Ok(true) => {
                    insert_in_order(names, found.name);
                    Ok(())
                },
                Ok(false) => Ok(()),
                // Hot-unplug while walking sysfs is normal.
                Err(TransportError::Io { operation, path, source }) => {
                    if source.kind == OsErrorKind::NotFound {
                        Ok(())
                    } else {
                        Err(TransportError::Io { operation, path, source })
                    }
                },
                Err(error) => Err(error),
            }
        },
    }
}

/// The devices among what walking the hidraw class directory gave: only those with
/// USB VID `0x2c30` and PID `0x1050`, by path.
///
/// Display names and the order of the entries are never used to identify a device.
/// A missing directory means that there is no device.
pub fn discover_devices(listing: Result<Vec<ListedEntry>, OsError>) -> (discovered: Result<
    Vec<DeviceInfo>,
    TransportError,
>)
    ensures
        match listing {
            Err(source) => if source.kind == OsErrorKind::NotFound {
                discovered matches Ok(devices) && devices@.len() == 0
            } else {
                discovered matches Err(error) && is_io_error(
                    error,
                    "enumerate hidraw nodes"@,
                    "/sys/class/hidraw"@,
                    source,
                )
            },
            Ok(entries) => match discovered {
                Ok(devices) => {
                    &&& first_fatal(entries@) == entries@.len()
                    &&& in_order(paths_of(devices@))
                    &&& paths_of(devices@).to_multiset() == matching_paths(entries@).to_multiset()
                },
                Err(error) => {
                    &&& first_fatal(entries@) < entries@.len()
                    &&& ends_with(entries@[first_fatal(entries@)], error)
                },
            },
        },
{
    let entries = match listing {
        Err(source) => {
            if source.kind == OsErrorKind::NotFound {
                return Ok(Vec::new());
            }
            return Err(
                io_error(
                    "enumerate hidraw nodes",
                    String::from_str("/sys/class/hidraw"),
                    source,
                ),
            );
        },
        Ok(entries) => entries,
    };
    let ghost all = entries@;
    let mut names: Vec<Vec<u8>> = Vec::new();
    assert(texts_of(names@) =~= matching_paths(all.take(0)));
    for entry in iter: entries.into_iter()
        invariant
            iter.seq() == all,
            listing matches Ok(listed) && listed@ == all,
            forall|i: int| 0 <= i < iter.index() ==> !is_fatal(#[trigger] all[i]),
            in_order(texts_of(names@)),
            forall|i: int| 0 <= i < names@.len() ==> is_node_name(#[trigger] names@[i]@),
            texts_of(names@).to_multiset() == matching_paths(
                all.take(iter.index() as int),
            ).to_multiset(),
    {
        let ghost done = iter.index() as int;
        let ghost texts = matching_paths(all.take(done));
        proof {
            assert(all.take(done + 1).drop_last() =~= all.take(done));
            assert(all.take(done + 1).last() == entry);
        }
        match observe(&mut names, entry) {
            Err(error) => {
                proof {
                    lemma_first_fatal(all, done);
                }
                return Err(error);
            },
            Ok(_) => {
                proof {
                    if is_match(all[done]) {
                        vstd::seq_lib::to_multiset_build(
                            texts,
                            node_path(all[done]->Ok_0.name@),
                        );
                    }
                }
            },
        }
    }
    proof {
        lemma_first_fatal(all, all.len() as int);
        assert(all.take(all.len() as int) =~= all);
    }
    let mut devices: Vec<DeviceInfo> = Vec::new();
    let mut index: usize = 0;
    while index < names.len()
        invariant
            index <= names@.len(),
            forall|i: int| 0 <= i < names@.len() ==> is_node_name(#[trigger] names@[i]@),
            paths_of(devices@) == texts_of(names@).take(index as int),
        decreases names@.len() - index,
    {
        let ghost before = paths_of(devices@);
        devices.push(DeviceInfo::of_name(names[index].as_slice()));
        index += 1;
        assert(paths_of(devices@) =~= before.push(texts_of(names@)[index - 1]));
        assert(paths_of(devices@) =~= texts_of(names@).take(index as int));
    }
    assert(texts_of(names@).take(index as int) =~= texts_of(names@));
    Ok(devices)
}

} // verus!
