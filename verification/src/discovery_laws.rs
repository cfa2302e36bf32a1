//! What holds of the search for the supported device as a whole.

use crate::device_session::{opens_path, opens_sole_device};
use crate::discovery::{
    ends_with, first_fatal, in_order, is_fatal, is_match, matching_paths, paths_of, text_le,
    ListedEntry,
};
use crate::error::TransportError;
use crate::identity::{
    find, id_key, identifies, ids, lemma_ids_append, lines, without_carriage_return,
};
use crate::node::{ascii, is_node_name, node_path, DeviceInfo};
use crate::open::{OpenAction, OpenActionView, OpenPhase, Opening};
use crate::os::{OsError, OsErrorKind};
use crate::session::StartupMode;
use vstd::prelude::*;

verus! {

proof fn lemma_text_le_antisymmetric(a: Seq<char>, b: Seq<char>)
    requires
        text_le(a, b),
        text_le(b, a),
    ensures
        a == b,
    decreases a.len(),
{
    if a.len() > 0 && b.len() > 0 {
        lemma_text_le_antisymmetric(a.skip(1), b.skip(1));
        assert(a =~= seq![a[0]] + a.skip(1));
        assert(b =~= seq![b[0]] + b.skip(1));
    } else {
        assert(a =~= b);
    }
}

/// Texts can be put in order in one way only: two sequences of the same texts, both in
/// order, are the same sequence.
pub proof fn law_order_is_unique(a: Seq<Seq<char>>, b: Seq<Seq<char>>)
    requires
        in_order(a),
        in_order(b),
        a.to_multiset() == b.to_multiset(),
    ensures
        a == b,
    decreases a.len(),
{
    broadcast use vstd::seq_lib::group_to_multiset_ensures;

    if a.len() == 0 {
        assert(a =~= b);
    } else {
        let x = a.last();
        let y = b.last();
        assert(b.to_multiset().count(x) > 0);
        assert(a.to_multiset().count(y) > 0);
        let i = choose|i: int| 0 <= i < b.len() && b[i] == x;
        let j = choose|j: int| 0 <= j < a.len() && a[j] == y;
        assert(text_le(b[i], b[b.len() - 1]));
        assert(text_le(a[j], a[a.len() - 1]));
        lemma_text_le_antisymmetric(x, y);
        assert(a =~= a.drop_last().push(x));
        assert(b =~= b.drop_last().push(x));
        assert(a.drop_last().to_multiset() =~= a.to_multiset().remove(x));
        assert(b.drop_last().to_multiset() =~= b.to_multiset().remove(x));
        law_order_is_unique(a.drop_last(), b.drop_last());
    }
}

/// What the search sees of an entry, by contents.
pub enum EntryView {
    /// It could not be listed.
    Unlisted(OsErrorKind),
    /// The identity of the entry of that name could not be read.
    Unread(Seq<u8>, OsErrorKind),
    /// The entry of that name has that identity.
    Read(Seq<u8>, Seq<char>),
}

/// What the search sees of an entry.
pub open spec fn entry_view(entry: ListedEntry) -> EntryView {
    match entry {
        Err(error) => EntryView::Unlisted(error.kind),
        Ok(found) => match found.uevent {
            Err(error) => EntryView::Unread(found.name@, error.kind),
            Ok(text) => EntryView::Read(found.name@, text@),
        },
    }
}

/// What the search sees of a listing.
pub open spec fn views_of(entries: Seq<ListedEntry>) -> Seq<EntryView> {
    Seq::new(entries.len(), |i: int| entry_view(entries[i]))
}

spec fn view_is_match(view: EntryView) -> bool {
    view matches EntryView::Read(name, text) && is_node_name(name) && identifies(text)
}

spec fn view_is_fatal(view: EntryView) -> bool {
    match view {
        EntryView::Unlisted(_) => true,
        EntryView::Unread(name, kind) => is_node_name(name) && kind != OsErrorKind::NotFound,
        EntryView::Read(_, _) => false,
    }
}

spec fn view_path(view: EntryView) -> Seq<char> {
    node_path(view->Read_0)
}

spec fn view_paths(views: Seq<EntryView>) -> Seq<Seq<char>>
    decreases views.len(),
{
    if views.len() == 0 {
        seq![]
    } else if view_is_match(views.last()) {
        view_paths(views.drop_last()).push(view_path(views.last()))
    } else {
        view_paths(views.drop_last())
    }
}

proof fn lemma_view_paths(entries: Seq<ListedEntry>)
    ensures
        matching_paths(entries) == view_paths(views_of(entries)),
    decreases entries.len(),
{
    if entries.len() > 0 {
        lemma_view_paths(entries.drop_last());
        assert(views_of(entries).drop_last() =~= views_of(entries.drop_last()));
    }
}

proof fn lemma_view_paths_remove(views: Seq<EntryView>, index: int)
    requires
        0 <= index < views.len(),
    ensures
        view_paths(views).to_multiset() == (if view_is_match(views[index]) {
            view_paths(views.remove(index)).to_multiset().insert(view_path(views[index]))
        } else {
            view_paths(views.remove(index)).to_multiset()
        }),
    decreases views.len(),
{
    broadcast use vstd::seq_lib::group_to_multiset_ensures;

    let rest = views.remove(index);
    let last = views.last();
    if index == views.len() - 1 {
        assert(rest =~= views.drop_last());
    } else {
        lemma_view_paths_remove(views.drop_last(), index);
        assert(rest.drop_last() =~= views.drop_last().remove(index));
        assert(rest.last() == last);
        assert(views.drop_last()[index] == views[index]);
        if view_is_match(last) && view_is_match(views[index]) {
            let others = view_paths(rest.drop_last()).to_multiset();
            let removed = view_path(views[index]);
            let path = view_path(last);
            assert(others.insert(removed).insert(path) =~= others.insert(path).insert(removed));
        }
    }
}

proof fn lemma_same_views(a: Seq<EntryView>, b: Seq<EntryView>)
    requires
        a.to_multiset() == b.to_multiset(),
    ensures
        view_paths(a).to_multiset() == view_paths(b).to_multiset(),
    decreases a.len(),
{
    broadcast use vstd::seq_lib::group_to_multiset_ensures;

    if a.len() == 0 {
        vstd::seq_lib::to_multiset_len(a);
        vstd::seq_lib::to_multiset_len(b);
        assert(a =~= b);
    } else {
        let view = a.last();
        assert(b.to_multiset().count(view) > 0);
        let index = choose|index: int| 0 <= index < b.len() && b[index] == view;
        lemma_view_paths_remove(a, a.len() - 1);
        lemma_view_paths_remove(b, index);
        assert(a.remove(a.len() - 1).to_multiset() =~= a.to_multiset().remove(view));
        assert(b.remove(index).to_multiset() =~= b.to_multiset().remove(view));
        lemma_same_views(a.remove(a.len() - 1), b.remove(index));
    }
}

proof fn lemma_first_fatal_bounds(entries: Seq<ListedEntry>)
    ensures
        0 <= first_fatal(entries) <= entries.len(),
        first_fatal(entries) < entries.len() ==> is_fatal(entries[first_fatal(entries)]),
        forall|i: int| 0 <= i < first_fatal(entries) ==> !is_fatal(#[trigger] entries[i]),
    decreases entries.len(),
{
    if entries.len() > 0 && !is_fatal(entries[0]) {
        lemma_first_fatal_bounds(entries.skip(1));
        assert forall|i: int| 0 <= i < first_fatal(entries) implies !is_fatal(
            #[trigger] entries[i],
        ) by {
            if i > 0 {
                assert(entries.skip(1)[i - 1] == entries[i]);
            }
        }
    }
}

proof fn lemma_same_success(a: Seq<ListedEntry>, b: Seq<ListedEntry>)
    requires
        views_of(a).to_multiset() == views_of(b).to_multiset(),
        first_fatal(a) < a.len(),
    ensures
        first_fatal(b) < b.len(),
{
    broadcast use vstd::seq_lib::group_to_multiset_ensures;

    lemma_first_fatal_bounds(a);
    lemma_first_fatal_bounds(b);
    let view = views_of(a)[first_fatal(a)];
    assert(view_is_fatal(view));
    assert(views_of(a).contains(view));
    assert(views_of(b).to_multiset().count(view) > 0);
    let index = choose|index: int| 0 <= index < views_of(b).len() && views_of(b)[index] == view;
    assert(is_fatal(b[index]));
}

/// The order of the entries of the directory is irrelevant: from entries with the same
/// contents, in whatever order they are listed, the search succeeds alike, and finds
/// the same devices in the same order.
pub proof fn law_entry_order_is_irrelevant(
    a: Seq<ListedEntry>,
    b: Seq<ListedEntry>,
    found_in_a: Seq<Seq<char>>,
    found_in_b: Seq<Seq<char>>,
)
    requires
        views_of(a).to_multiset() == views_of(b).to_multiset(),
        in_order(found_in_a),
        in_order(found_in_b),
        found_in_a.to_multiset() == matching_paths(a).to_multiset(),
        found_in_b.to_multiset() == matching_paths(b).to_multiset(),
    ensures
        first_fatal(a) == a.len() <==> first_fatal(b) == b.len(),
        found_in_a == found_in_b,
{
    lemma_view_paths(a);
    lemma_view_paths(b);
    lemma_same_views(views_of(a), views_of(b));
    law_order_is_unique(found_in_a, found_in_b);
    lemma_first_fatal_bounds(a);
    lemma_first_fatal_bounds(b);
    if first_fatal(a) < a.len() {
        lemma_same_success(a, b);
    }
    if first_fatal(b) < b.len() {
        lemma_same_success(b, a);
    }
}

/// Whether no two matching entries have the same name.
pub open spec fn distinct_names(entries: Seq<ListedEntry>) -> bool {
    forall|i: int, j: int|
        0 <= i < j < entries.len() && is_match(#[trigger] entries[i]) && is_match(
            #[trigger] entries[j],
        ) ==> entries[i]->Ok_0.name@ != entries[j]->Ok_0.name@
}

proof fn lemma_paths_differ(a: Seq<u8>, b: Seq<u8>)
    requires
        node_path(a) == node_path(b),
    ensures
        a == b,
{
    let prefix = "/dev/"@.len() as int;
    assert(node_path(a).len() == prefix + a.len());
    assert(node_path(b).len() == prefix + b.len());
    assert forall|i: int| 0 <= i < a.len() implies a[i] == b[i] by {
        assert(node_path(a)[prefix + i] == a[i] as char);
        assert(node_path(b)[prefix + i] == b[i] as char);
    }
    assert(a =~= b);
}

proof fn lemma_matching_path_source(entries: Seq<ListedEntry>, path: Seq<char>)
    requires
        matching_paths(entries).contains(path),
    ensures
        exists|i: int|
            0 <= i < entries.len() && is_match(#[trigger] entries[i]) && node_path(
                entries[i]->Ok_0.name@,
            ) == path,
    decreases entries.len(),
{
    if entries.len() > 0 {
        let rest = entries.drop_last();
        let last = entries.last();
        if is_match(last) && node_path(last->Ok_0.name@) == path {
            assert(entries[entries.len() - 1] == last);
        } else {
            let k = choose|k: int|
                0 <= k < matching_paths(entries).len() && matching_paths(entries)[k] == path;
            assert(matching_paths(rest)[k] == path);
            lemma_matching_path_source(rest, path);
            let i = choose|i: int|
                0 <= i < rest.len() && is_match(#[trigger] rest[i]) && node_path(
                    rest[i]->Ok_0.name@,
                ) == path;
            assert(entries[i] == rest[i]);
        }
    }
}

proof fn lemma_distinct_paths(entries: Seq<ListedEntry>)
    requires
        distinct_names(entries),
    ensures
        matching_paths(entries).no_duplicates(),
    decreases entries.len(),
{
    if entries.len() > 0 {
        let rest = entries.drop_last();
        let last = entries.last();
        assert forall|i: int, j: int|
            0 <= i < j < rest.len() && is_match(#[trigger] rest[i]) && is_match(
                #[trigger] rest[j],
            ) implies rest[i]->Ok_0.name@ != rest[j]->Ok_0.name@ by {
            assert(rest[i] == entries[i] && rest[j] == entries[j]);
        }
        lemma_distinct_paths(rest);
        if is_match(last) {
            let path = node_path(last->Ok_0.name@);
            if matching_paths(rest).contains(path) {
                lemma_matching_path_source(rest, path);
                let i = choose|i: int|
                    0 <= i < rest.len() && is_match(#[trigger] rest[i]) && node_path(
                        rest[i]->Ok_0.name@,
                    ) == path;
                assert(rest[i] == entries[i]);
                assert(entries[entries.len() - 1] == last);
                lemma_paths_differ(entries[i]->Ok_0.name@, last->Ok_0.name@);
            }
            assert forall|k: int| 0 <= k < matching_paths(rest).len() implies matching_paths(
                rest,
            )[k] != path by {
                assert(matching_paths(rest).contains(matching_paths(rest)[k]));
            }
        }
    }
}

/// The paths of the devices are strictly ascending where the names are distinct, as
/// they are in a directory: no device is found twice.
pub proof fn law_paths_are_strictly_ascending(
    entries: Seq<ListedEntry>,
    found: Seq<Seq<char>>,
    i: int,
    j: int,
)
    requires
        distinct_names(entries),
        in_order(found),
        found.to_multiset() == matching_paths(entries).to_multiset(),
        0 <= i < j < found.len(),
    ensures
        text_le(found[i], found[j]),
        !text_le(found[j], found[i]),
{
    lemma_distinct_paths(entries);
    matching_paths(entries).lemma_multiset_has_no_duplicates();
    found.lemma_multiset_has_no_duplicates_conv();
    if text_le(found[j], found[i]) {
        lemma_text_le_antisymmetric(found[i], found[j]);
    }
}

/// What stands behind a text without it is found there.
pub proof fn lemma_find_after(head: Seq<char>, wanted: char, tail: Seq<char>)
    requires
        !head.contains(wanted),
    ensures
        find(head + seq![wanted] + tail, wanted) == head.len(),
    decreases head.len(),
{
    let whole = head + seq![wanted] + tail;
    if head.len() > 0 {
        assert(head.contains(head[0]));
        assert forall|c: char| head.skip(1).contains(c) implies head.contains(c) by {
            let i = choose|i: int| 0 <= i < head.skip(1).len() && head.skip(1)[i] == c;
            assert(head[i + 1] == c);
        }
        lemma_find_after(head.skip(1), wanted, tail);
        assert(whole.skip(1) =~= head.skip(1) + seq![wanted] + tail);
    }
}

/// Only what the `HID_ID` lines say counts: texts that say the same there are identified
/// alike, whatever other lines they have.
pub proof fn law_only_identity_lines_count(a: Seq<char>, b: Seq<char>)
    requires
        ids(lines(a)) == ids(lines(b)),
    ensures
        identifies(a) == identifies(b),
{
}

/// The lines of two texts are those of the one, then of the other.
pub proof fn lemma_lines_append(head: Seq<char>, tail: Seq<char>)
    requires
        head.len() == 0 || head.last() == '\n',
    ensures
        lines(head + tail) == lines(head) + lines(tail),
    decreases head.len(),
{
    if head.len() == 0 {
        assert(head + tail =~= tail);
        assert(lines(head) + lines(tail) =~= lines(tail));
    } else {
        lemma_find_bounds(head, '\n');
        let end = find(head, '\n');
        let first = head.take(end);
        let rest = head.skip(end + 1);
        assert(!first.contains('\n'));
        assert(head =~= first + seq!['\n'] + rest);
        assert(head + tail =~= first + seq!['\n'] + (rest + tail));
        lemma_find_after(first, '\n', rest + tail);
        assert((head + tail).take(end) =~= first);
        assert((head + tail).skip(end + 1) =~= rest + tail);
        lemma_lines_append(rest, tail);
        assert(lines(head + tail) =~= lines(head) + lines(tail));
    }
}

/// What a text contains is found in it.
pub proof fn lemma_find_bounds(text: Seq<char>, wanted: char)
    requires
        text.contains(wanted),
    ensures
        0 <= find(text, wanted) < text.len(),
        text[find(text, wanted)] == wanted,
        forall|i: int| 0 <= i < find(text, wanted) ==> text[i] != wanted,
    decreases text.len(),
{
    if text[0] != wanted {
        let at = choose|at: int| 0 <= at < text.len() && text[at] == wanted;
        assert(text.skip(1)[at - 1] == wanted);
        lemma_find_bounds(text.skip(1), wanted);
        assert forall|i: int| 0 <= i < find(text, wanted) implies text[i] != wanted by {
            if i > 0 {
                assert(text.skip(1)[i - 1] == text[i]);
            }
        }
    }
}

/// Another line than a `HID_ID` one, such as one that holds a name, may be put between
/// the lines of a text without changing whether it identifies the device.
pub proof fn law_other_lines_are_ignored(before: Seq<char>, line: Seq<char>, after: Seq<char>)
    requires
        before.len() == 0 || before.last() == '\n',
        !line.contains('\n'),
        !id_key().is_prefix_of(line),
    ensures
        identifies(before + (line + seq!['\n'] + after)) == identifies(before + after),
{
    lemma_lines_append(before, line + seq!['\n'] + after);
    lemma_lines_append(before, after);
    lemma_other_first_line(line, after);
    lemma_ids_append(lines(before), lines(line + seq!['\n'] + after));
    lemma_ids_append(lines(before), lines(after));
}

proof fn lemma_other_first_line(line: Seq<char>, text: Seq<char>)
    requires
        !line.contains('\n'),
        !id_key().is_prefix_of(line),
    ensures
        ids(lines(line + seq!['\n'] + text)) == ids(lines(text)),
{
    let whole = line + seq!['\n'] + text;
    lemma_find_after(line, '\n', text);
    assert(whole.take(line.len() as int) =~= line);
    assert(whole.skip(line.len() as int + 1) =~= text);
    let first = without_carriage_return(line);
    assert(lines(whole) == seq![first] + lines(text));
    if id_key().is_prefix_of(first) {
        assert(id_key() =~= line.subrange(0, id_key().len() as int)) by {
            assert(first.subrange(0, id_key().len() as int) =~= line.subrange(
                0,
                id_key().len() as int,
            ));
        }
    }
    assert((seq![first] + lines(text)).skip(1) =~= lines(text));
    assert(ids(lines(whole)) == ids(lines(text)));
}

/// Whether an entry is a node of the supported device: its name is that of a node, and
/// its identity could be read and is that of the device.
pub open spec fn is_device(entry: ListedEntry) -> bool {
    &&& entry matches Ok(found)
    &&& is_node_name(found.name@)
    &&& found.uevent matches Ok(text)
    &&& identifies(text@)
}

/// Whether an entry makes the search fail: it could not be listed, or the identity of a
/// node could not be read though the node is there.
pub open spec fn is_failure(entry: ListedEntry) -> bool {
    match entry {
        Err(_) => true,
        Ok(found) => {
            &&& is_node_name(found.name@)
            &&& found.uevent matches Err(error)
            &&& error.kind != OsErrorKind::NotFound
        },
    }
}

proof fn lemma_matching_path_of(entries: Seq<ListedEntry>, index: int)
    requires
        0 <= index < entries.len(),
        is_match(entries[index]),
    ensures
        matching_paths(entries).contains(node_path(entries[index]->Ok_0.name@)),
    decreases entries.len(),
{
    let rest = entries.drop_last();
    let path = node_path(entries[index]->Ok_0.name@);
    let paths = matching_paths(entries);
    if index == entries.len() - 1 {
        assert(paths[paths.len() - 1] == path);
    } else {
        assert(rest[index] == entries[index]);
        lemma_matching_path_of(rest, index);
        let k = choose|k: int|
            0 <= k < matching_paths(rest).len() && matching_paths(rest)[k] == path;
        assert(paths[k] == path);
    }
}

/// Exactly the nodes of the supported device are found: a path is among those found if
/// and only if it is `/dev/` and the name of such a node.
pub proof fn law_exactly_the_devices_are_found(
    entries: Seq<ListedEntry>,
    found: Seq<Seq<char>>,
    path: Seq<char>,
)
    requires
        found.to_multiset() == matching_paths(entries).to_multiset(),
    ensures
        found.contains(path) <==> exists|i: int|
            0 <= i < entries.len() && is_device(#[trigger] entries[i]) && path == "/dev/"@ + ascii(
                entries[i]->Ok_0.name@,
            ),
{
    broadcast use vstd::seq_lib::group_to_multiset_ensures;

    let paths = matching_paths(entries);
    assert(found.contains(path) <==> found.to_multiset().count(path) > 0);
    assert(paths.contains(path) <==> paths.to_multiset().count(path) > 0);
    if paths.contains(path) {
        lemma_matching_path_source(entries, path);
        let i = choose|i: int|
            0 <= i < entries.len() && is_match(#[trigger] entries[i]) && node_path(
                entries[i]->Ok_0.name@,
            ) == path;
        assert(is_device(entries[i]));
    }
    if exists|i: int|
        0 <= i < entries.len() && is_device(#[trigger] entries[i]) && path == "/dev/"@ + ascii(
            entries[i]->Ok_0.name@,
        ) {
        let i = choose|i: int|
            0 <= i < entries.len() && is_device(#[trigger] entries[i]) && path == "/dev/"@ + ascii(
                entries[i]->Ok_0.name@,
            );
        lemma_matching_path_of(entries, i);
    }
}

/// The search fails exactly if an entry makes it fail, and then at the first.
pub proof fn law_search_fails_at_the_first_failure(entries: Seq<ListedEntry>)
    ensures
        0 <= first_fatal(entries) <= entries.len(),
        first_fatal(entries) < entries.len() ==> is_failure(entries[first_fatal(entries)]),
        forall|i: int| 0 <= i < first_fatal(entries) ==> !is_failure(#[trigger] entries[i]),
{
    lemma_first_fatal_bounds(entries);
    assert forall|i: int| 0 <= i < first_fatal(entries) implies !is_failure(
        #[trigger] entries[i],
    ) by {
        assert(!is_fatal(entries[i]));
    }
}

/// The error tells the operation, the path and the cause: the directory for an entry
/// that could not be listed, the identity file of the node for one that could not be
/// read.
pub proof fn law_search_errors_tell_their_cause(entry: ListedEntry, error: TransportError)
    requires
        ends_with(entry, error),
    ensures
        error matches TransportError::Io { operation, path, source } && match entry {
            Err(cause) => operation@ == "enumerate hidraw node"@ && path@ == "/sys/class/hidraw"@
                && source == cause,
            Ok(found) => operation@ == "read HID identity"@ && path@ == "/sys/class/hidraw/"@
                + ascii(found.name@) + "/device/uevent"@ && found.uevent == Err::<String, _>(
                source,
            ),
        },
{
}

/// The order of texts is that of dictionaries: a text comes before its continuations,
/// and otherwise the first character in which two differ decides.
pub proof fn law_order_is_lexicographic(common: Seq<char>, a: Seq<char>, b: Seq<char>)
    ensures
        text_le(common, common + a),
        text_le(common + a, common) ==> a.len() == 0,
        a.len() > 0 && b.len() > 0 && a[0] != b[0] ==> text_le(common + a, common + b) == (a[0]
            < b[0]),
    decreases common.len(),
{
    if common.len() == 0 {
        assert(common + a =~= a);
        assert(common + b =~= b);
    } else {
        assert((common + a).skip(1) =~= common.skip(1) + a);
        assert((common + b).skip(1) =~= common.skip(1) + b);
        law_order_is_lexicographic(common.skip(1), a, b);
    }
}

proof fn lemma_no_match(entries: Seq<ListedEntry>)
    requires
        forall|i: int| 0 <= i < entries.len() ==> !is_device(#[trigger] entries[i]),
    ensures
        matching_paths(entries).len() == 0,
    decreases entries.len(),
{
    if entries.len() > 0 {
        let rest = entries.drop_last();
        assert forall|i: int| 0 <= i < rest.len() implies !is_device(#[trigger] rest[i]) by {
            assert(rest[i] == entries[i]);
        }
        assert(!is_device(entries[entries.len() - 1]));
        lemma_no_match(rest);
    }
}

proof fn lemma_one_match(entries: Seq<ListedEntry>, index: int)
    requires
        0 <= index < entries.len(),
        is_device(entries[index]),
        forall|i: int| 0 <= i < entries.len() && i != index ==> !is_device(#[trigger] entries[i]),
    ensures
        matching_paths(entries) == seq![node_path(entries[index]->Ok_0.name@)],
    decreases entries.len(),
{
    let rest = entries.drop_last();
    if index == entries.len() - 1 {
        assert forall|i: int| 0 <= i < rest.len() implies !is_device(#[trigger] rest[i]) by {
            assert(rest[i] == entries[i]);
        }
        lemma_no_match(rest);
        assert(matching_paths(entries) =~= seq![node_path(entries[index]->Ok_0.name@)]);
    } else {
        assert(rest[index] == entries[index]);
        assert forall|i: int| 0 <= i < rest.len() && i != index implies !is_device(
            #[trigger] rest[i],
        ) by {
            assert(rest[i] == entries[i]);
        }
        assert(!is_device(entries[entries.len() - 1]));
        lemma_one_match(rest, index);
    }
}

proof fn lemma_two_matches(entries: Seq<ListedEntry>, i: int, j: int)
    requires
        0 <= i < j < entries.len(),
        is_device(entries[i]),
        is_device(entries[j]),
    ensures
        matching_paths(entries).len() >= 2,
    decreases entries.len(),
{
    let rest = entries.drop_last();
    assert(rest[i] == entries[i]);
    if j == entries.len() - 1 {
        lemma_matching_path_of(rest, i);
    } else {
        assert(rest[j] == entries[j]);
        lemma_two_matches(rest, i, j);
    }
}

/// Connecting begins with the only device that there is, and with none otherwise:
/// without one there is no device, and of several none is chosen.
pub proof fn law_connecting_needs_exactly_one_device(
    begun: Result<(Opening, OpenAction), TransportError>,
    entries: Vec<ListedEntry>,
    mode: StartupMode,
    i: int,
    j: int,
)
    requires
        opens_sole_device(begun, Ok(entries), mode),
        forall|k: int| 0 <= k < entries@.len() ==> !is_failure(#[trigger] entries@[k]),
    ensures
        (forall|k: int| 0 <= k < entries@.len() ==> !is_device(#[trigger] entries@[k])) ==> begun
            == Err::<(Opening, OpenAction), _>(TransportError::NoDevice),
        0 <= i < j < entries@.len() && is_device(entries@[i]) && is_device(entries@[j]) ==> begun
            is Err && begun->Err_0 is MultipleDevices,
        0 <= i < entries@.len() && is_device(entries@[i]) && (forall|k: int|
            0 <= k < entries@.len() && k != i ==> !is_device(#[trigger] entries@[k])) ==> {
            &&& begun matches Ok((opening, action))
            &&& opening@.name == entries@[i]->Ok_0.name@
            &&& opening@.mode == mode
            &&& opening@.phase == OpenPhase::Verifying
            &&& action@ == OpenActionView::ReadIdentity(
                "/sys/class/hidraw/"@ + ascii(entries@[i]->Ok_0.name@) + "/device/uevent"@,
            )
        },
{
    law_search_fails_at_the_first_failure(entries@);
    if forall|k: int| 0 <= k < entries@.len() ==> !is_device(#[trigger] entries@[k]) {
        lemma_no_match(entries@);
    }
    if 0 <= i < j < entries@.len() && is_device(entries@[i]) && is_device(entries@[j]) {
        lemma_two_matches(entries@, i, j);
    }
    if 0 <= i < entries@.len() && is_device(entries@[i]) && (forall|k: int|
        0 <= k < entries@.len() && k != i ==> !is_device(#[trigger] entries@[k])) {
        lemma_one_match(entries@, i);
        lemma_paths_differ(begun->Ok_0.0@.name, entries@[i]->Ok_0.name@);
    }
}

/// A listing that fails makes connecting fail: by its first failing entry, or as a
/// whole, in which case a directory that is not there means that there is no device.
pub proof fn law_connecting_passes_failures_on(
    begun: Result<(Opening, OpenAction), TransportError>,
    listing: Result<Vec<ListedEntry>, OsError>,
    mode: StartupMode,
)
    requires
        opens_sole_device(begun, listing, mode),
    ensures
        match listing {
            Ok(entries) => (exists|k: int|
                0 <= k < entries@.len() && is_failure(#[trigger] entries@[k])) ==> begun is Err
                && ends_with(entries@[first_fatal(entries@)], begun->Err_0),
            Err(cause) => if cause.kind == OsErrorKind::NotFound {
                begun == Err::<(Opening, OpenAction), _>(TransportError::NoDevice)
            } else {
                &&& begun is Err
                &&& begun->Err_0 matches TransportError::Io { operation, path, source }
                &&& operation@ == "enumerate hidraw nodes"@
                &&& path@ == "/sys/class/hidraw"@
                &&& source == cause
            },
        },
{
    if listing is Ok {
        law_search_fails_at_the_first_failure(listing->Ok_0@);
    }
}

/// Opening an explicit path begins with the node that it names, and any path that is
/// not a direct one is refused.
pub proof fn law_only_direct_paths_are_opened(
    begun: Result<(Opening, OpenAction), TransportError>,
    path: Seq<u8>,
    mode: StartupMode,
)
    requires
        opens_path(begun, path, mode),
    ensures
        match begun {
            Ok((opening, action)) => {
                &&& is_node_name(opening@.name)
                &&& path == seq![0x2fu8, 0x64, 0x65, 0x76, 0x2f] + opening@.name
                &&& opening@.mode == mode
                &&& opening@.phase == OpenPhase::Verifying
                &&& action@ == OpenActionView::ReadIdentity(
                    "/sys/class/hidraw/"@ + ascii(opening@.name) + "/device/uevent"@,
                )
            },
            Err(TransportError::InvalidPath(refused)) => refused@ == path && !(path.len() > 5
                && path.take(5) == seq![0x2fu8, 0x64, 0x65, 0x76, 0x2f] && is_node_name(
                path.skip(5),
            )),
            Err(_) => false,
        },
{
    if begun is Ok {
        lemma_paths_differ(begun->Ok_0.0@.name, path.skip(5));
        assert(path =~= seq![0x2fu8, 0x64, 0x65, 0x76, 0x2f] + path.skip(5));
    } else if path.len() > 5 && path.take(5) == seq![0x2fu8, 0x64, 0x65, 0x76, 0x2f] {
        let head = path.take(5);
        assert(path[0] == head[0] && path[1] == head[1] && path[2] == head[2] && path[3] == head[3]
            && path[4] == head[4]);
    }
}

/// Of several devices all are named, in order.
pub proof fn law_several_devices_are_all_named(
    begun: Result<(Opening, OpenAction), TransportError>,
    entries: Vec<ListedEntry>,
    mode: StartupMode,
    devices: Vec<DeviceInfo>,
    path: Seq<char>,
)
    requires
        opens_sole_device(begun, Ok(entries), mode),
        begun == Err::<(Opening, OpenAction), _>(TransportError::MultipleDevices(devices)),
    ensures
        in_order(paths_of(devices@)),
        (exists|k: int| 0 <= k < devices@.len() && #[trigger] devices@[k]@ == path)
            <==> exists|i: int|
            0 <= i < entries@.len() && is_device(#[trigger] entries@[i]) && path == "/dev/"@
                + ascii(entries@[i]->Ok_0.name@),
{
    let found = paths_of(devices@);
    law_search_fails_at_the_first_failure(entries@);
    law_exactly_the_devices_are_found(entries@, found, path);
    if found.contains(path) {
        let k = choose|k: int| 0 <= k < found.len() && found[k] == path;
        assert(devices@[k]@ == path);
    }
    if exists|k: int| 0 <= k < devices@.len() && #[trigger] devices@[k]@ == path {
        let k = choose|k: int| 0 <= k < devices@.len() && #[trigger] devices@[k]@ == path;
        assert(found[k] == path);
    }
}

/// The paths of devices are theirs, in their order, and in order they are if none
/// comes after a later one.
pub proof fn law_paths_of_devices(devices: Seq<DeviceInfo>, i: int, j: int)
    requires
        0 <= i <= j < devices.len(),
    ensures
        paths_of(devices).len() == devices.len(),
        paths_of(devices)[i] == devices[i]@,
        in_order(paths_of(devices)) ==> text_le(devices[i]@, devices[j]@),
{
    assert(in_order(paths_of(devices)) ==> text_le(paths_of(devices)[i], paths_of(devices)[j]));
}

/// An entry ends the search, or adds a device to it, exactly if it should.
pub proof fn law_entries_are_told_apart(entry: ListedEntry)
    ensures
        is_fatal(entry) <==> is_failure(entry),
        is_match(entry) <==> is_device(entry),
{
}

} // verus!
