//! Native drag and drop onto a box window: which real paths and Shell virtual items a
//! dragged data object carries, the payload sent to the front end, and the drop target
//! that answers the OLE callbacks.

use vstd::prelude::*;
use crate::text::{concat_str, str_equal, opt_view, copy_optional_string};
use crate::wide::{decode_utf16_lossy, utf16_decode_lossy};
use crate::text::string_from_chars;
use crate::shell_virtual_item::{SHELL_ITEM_PATH_PREFIX, shell_id_for, resolve_shell_id_from_parsing_name};

verus! {

/// A Shell virtual item in a drop, known by its stable id only.
pub struct NativeShellDropItem {
    pub shell_id: String,
}

/// What a drop carries that a box understands: real paths and Shell virtual items.
pub struct NativeDropItems {
    pub paths: Vec<String>,
    pub shell_items: Vec<NativeShellDropItem>,
}

/// The ids of Shell drop items, in order.
pub open spec fn shell_ids_of(items: Seq<NativeShellDropItem>) -> Seq<Seq<char>> {
    items.map_values(|it: NativeShellDropItem| it.shell_id@)
}

/// The texts of strings, in order.
pub open spec fn views_of(s: Seq<String>) -> Seq<Seq<char>> {
    s.map_values(|p: String| p@)
}

impl NativeDropItems {
    /// No paths and no Shell items.
    pub fn new() -> (r: Self)
        ensures
            r.paths@.len() == 0,
            r.shell_items@.len() == 0,
    {
        NativeDropItems { paths: Vec::new(), shell_items: Vec::new() }
    }

    /// Whether the drop carries neither a path nor a Shell item.
    pub fn is_empty(&self) -> (r: bool)
        ensures
            r == (self.paths@.len() == 0 && self.shell_items@.len() == 0),
    {
        self.paths.len() == 0 && self.shell_items.len() == 0
    }
}

/// An empty list is left out of an event payload.
pub fn optional_non_empty<T>(values: Vec<T>) -> (r: Option<Vec<T>>)
    ensures
        values@.len() == 0 ==> r is None,
        values@.len() > 0 ==> r == Some(values),
{
    if values.len() == 0 {
        None
    } else {
        Some(values)
    }
}

/// The paths of a payload as the front end's drop event expects them: the real paths,
/// then each Shell item as its `shell::<id>` path key.
pub open spec fn payload_paths(paths: Seq<String>, shell_items: Seq<NativeShellDropItem>) -> Seq<
    Seq<char>,
> {
    views_of(paths) + shell_ids_of(shell_items).map_values(
        |id: Seq<char>| SHELL_ITEM_PATH_PREFIX@ + id,
    )
}

/// The paths of a payload: real paths first, then the path keys of the Shell items.
pub fn resolve_payload_paths(payload: &NativeDropItems) -> (paths: Vec<String>)
    ensures
        views_of(paths@) == payload_paths(payload.paths@, payload.shell_items@),
{
    let mut paths: Vec<String> = Vec::new();
    let n = payload.paths.len();
    let mut i: usize = 0;
    while i < n
        invariant
            n == payload.paths@.len(),
            i <= n,
            paths@.len() == i,
            forall|k: int| 0 <= k < i ==> #[trigger] paths@[k]@ == payload.paths@[k]@,
        decreases n - i,
    {
        paths.push(payload.paths[i].clone());
        i = i + 1;
    }
    let m = payload.shell_items.len();
    let mut j: usize = 0;
    while j < m
        invariant
            n == payload.paths@.len(),
            m == payload.shell_items@.len(),
            j <= m,
            paths@.len() == n + j,
            forall|k: int| 0 <= k < n ==> #[trigger] paths@[k]@ == payload.paths@[k]@,
            forall|k: int|
                0 <= k < j ==> #[trigger] paths@[n + k]@ == SHELL_ITEM_PATH_PREFIX@
                    + payload.shell_items@[k].shell_id@,
        decreases m - j,
    {
        let key = concat_str(SHELL_ITEM_PATH_PREFIX, payload.shell_items[j].shell_id.as_str());
        paths.push(key);
        assert(paths@[n + j]@ == SHELL_ITEM_PATH_PREFIX@ + payload.shell_items@[j as int].shell_id@);
        j = j + 1;
    }
    assert(views_of(paths@) =~= payload_paths(payload.paths@, payload.shell_items@)) by {
        assert forall|k: int| 0 <= k < paths@.len() implies views_of(paths@)[k] == payload_paths(
            payload.paths@,
            payload.shell_items@,
        )[k] by {
            if k >= n {
                assert(paths@[n + (k - n)]@ == SHELL_ITEM_PATH_PREFIX@
                    + payload.shell_items@[k - n].shell_id@);
            }
        }
    }
    paths
}

/// Adds a Shell item to a drop unless one with the same id is already there, since a
/// data object may describe the same item in several formats.
pub fn push_unique_shell_drop_item(shell_items: &mut Vec<NativeShellDropItem>, shell_id: &str)
    ensures
        shell_ids_of(old(shell_items)@).contains(shell_id@) ==> shell_ids_of(final(shell_items)@)
            == shell_ids_of(old(shell_items)@),
        !shell_ids_of(old(shell_items)@).contains(shell_id@) ==> shell_ids_of(
            final(shell_items)@,
        ) == shell_ids_of(old(shell_items)@).push(shell_id@),
{
    let n = shell_items.len();
    let mut i: usize = 0;
    while i < n
        invariant
            n == shell_items@.len(),
            shell_items@ == old(shell_items)@,
            i <= n,
            forall|k: int| 0 <= k < i ==> shell_ids_of(shell_items@)[k] != shell_id@,
        decreases n - i,
    {
        if str_equal(shell_items[i].shell_id.as_str(), shell_id) {
            assert(shell_ids_of(shell_items@)[i as int] == shell_id@);
            return;
        }
        i = i + 1;
    }
    shell_items.push(NativeShellDropItem { shell_id: shell_id.to_owned() });
    assert(shell_ids_of(shell_items@) =~= shell_ids_of(old(shell_items)@).push(shell_id@));
}

/// `ids` with `id` added at the end unless it is already there.
pub open spec fn add_unique(ids: Seq<Seq<char>>, id: Seq<char>) -> Seq<Seq<char>> {
    if ids.contains(id) {
        ids
    } else {
        ids.push(id)
    }
}

/// `ids` with each of `new`, in order, added unless already there.
pub open spec fn add_all_unique(ids: Seq<Seq<char>>, new: Seq<Seq<char>>) -> Seq<Seq<char>>
    decreases new.len(),
{
    if new.len() == 0 {
        ids
    } else {
        add_unique(add_all_unique(ids, new.drop_last()), new.last())
    }
}

proof fn lemma_add_all_unique_push(ids: Seq<Seq<char>>, new: Seq<Seq<char>>, id: Seq<char>)
    ensures
        add_all_unique(ids, new.push(id)) == add_unique(add_all_unique(ids, new), id),
{
    assert(new.push(id).drop_last() =~= new);
}

/// Adding ids one by one, each unless already there, never stores an id twice.
pub proof fn lemma_add_all_unique_no_duplicates(ids: Seq<Seq<char>>, new: Seq<Seq<char>>)
    requires
        ids.no_duplicates(),
    ensures
        add_all_unique(ids, new).no_duplicates(),
        forall|id: Seq<char>| #[trigger] add_all_unique(ids, new).contains(id) <==> (ids.contains(id) || new.contains(id)),
    decreases new.len(),
{
    if new.len() > 0 {
        let prefix = new.drop_last();
        lemma_add_all_unique_no_duplicates(ids, prefix);
        let before = add_all_unique(ids, prefix);
        let x = new.last();
        if !before.contains(x) {
            assert forall|i: int, j: int|
                0 <= i < j < before.push(x).len() implies before.push(x)[i] != before.push(x)[j] by {
                if j == before.len() {
                    assert(before.push(x)[i] == before[i]);
                }
            }
        }
        assert forall|id: Seq<char>| #[trigger] add_all_unique(ids, new).contains(id) <==> (ids.contains(id) || new.contains(id)) by {
            if new.contains(id) && !prefix.contains(id) {
                let k = choose|k: int| 0 <= k < new.len() && new[k] == id;
                if k < new.len() - 1 {
                    assert(prefix[k] == id);
                }
            }
            if prefix.contains(id) {
                let k = choose|k: int| 0 <= k < prefix.len() && prefix[k] == id;
                assert(new[k] == id);
            }
            if before.push(x).contains(id) && !before.contains(id) {
                let k = choose|k: int| 0 <= k < before.push(x).len() && before.push(x)[k] == id;
                assert(k == before.len());
            }
            if before.contains(id) {
                let k = choose|k: int| 0 <= k < before.len() && before[k] == id;
                assert(before.push(x)[k] == id);
            }
            assert(new[new.len() - 1] == x);
            if id == x {
                assert(before.push(x)[before.len() as int] == x);
            }
        }
    }
}

/// The ids of the supported items that the names denote, in order.
pub open spec fn matched_ids(names: Seq<Seq<char>>, user_profile: Option<Seq<char>>) -> Seq<
    Seq<char>,
>
    decreases names.len(),
{
    if names.len() == 0 {
        Seq::empty()
    } else {
        let rest = matched_ids(names.drop_last(), user_profile);
        match shell_id_for(names.last(), user_profile) {
            Some(id) => rest.push(id),
            None => rest,
        }
    }
}

/// The names that denote no supported item, in order.
pub open spec fn unmatched_names(names: Seq<Seq<char>>, user_profile: Option<Seq<char>>) -> Seq<
    Seq<char>,
>
    decreases names.len(),
{
    if names.len() == 0 {
        Seq::empty()
    } else {
        let rest = unmatched_names(names.drop_last(), user_profile);
        match shell_id_for(names.last(), user_profile) {
            Some(id) => rest,
            None => rest.push(names.last()),
        }
    }
}

/// The ids of a list of drop items, or none.
pub open spec fn opt_ids(items: Option<Vec<NativeShellDropItem>>) -> Seq<Seq<char>> {
    match items {
        Some(v) => shell_ids_of(v@),
        None => Seq::empty(),
    }
}

/// The texts of an optional list of strings, or none.
pub open spec fn opt_views(items: Option<Vec<String>>) -> Seq<Seq<char>> {
    match items {
        Some(v) => views_of(v@),
        None => Seq::empty(),
    }
}

/// What a dragged data object carries for a box: the Shell items read from its Shell
/// item array, then those of its Shell ID list, then its `CF_HDROP` paths; a path that
/// denotes a supported Shell item is stored as that item rather than as a path, and no
/// item is stored twice. Nothing when neither a path nor an item remains.
pub fn resolve_native_drop_items(
    array_items: Option<Vec<NativeShellDropItem>>,
    idlist_items: Option<Vec<NativeShellDropItem>>,
    hdrop_paths: Option<Vec<String>>,
    user_profile: Option<String>,
) -> (r: Option<NativeDropItems>)
    ensures
        ({
            let ids = add_all_unique(
                add_all_unique(opt_ids(array_items), opt_ids(idlist_items)),
                matched_ids(opt_views(hdrop_paths), opt_view(user_profile)),
            );
            let paths = unmatched_names(opt_views(hdrop_paths), opt_view(user_profile));
            &&& r is Some == (ids.len() > 0 || paths.len() > 0)
            &&& r matches Some(items) ==> shell_ids_of(items.shell_items@) == ids && views_of(
                items.paths@,
            ) == paths
        }),
{
    let mut shell_items = match array_items {
        Some(items) => items,
        None => Vec::new(),
    };
    let ghost start = shell_ids_of(shell_items@);
    assert(start =~= opt_ids(array_items));
    let extra = match idlist_items {
        Some(items) => items,
        None => Vec::new(),
    };
    let ghost extra_ids = shell_ids_of(extra@);
    assert(extra_ids =~= opt_ids(idlist_items));
    let m = extra.len();
    let mut j: usize = 0;
    assert(extra_ids.take(0) =~= Seq::<Seq<char>>::empty());
    while j < m
        invariant
            m == extra@.len(),
            extra_ids == shell_ids_of(extra@),
            j <= m,
            shell_ids_of(shell_items@) == add_all_unique(start, extra_ids.take(j as int)),
        decreases m - j,
    {
        push_unique_shell_drop_item(&mut shell_items, extra[j].shell_id.as_str());
        assert(extra_ids.take(j + 1).drop_last() =~= extra_ids.take(j as int));
        j = j + 1;
    }
    assert(extra_ids.take(m as int) =~= extra_ids);
    let ghost merged = shell_ids_of(shell_items@);
    let candidates = match hdrop_paths {
        Some(paths) => paths,
        None => Vec::new(),
    };
    let ghost names = views_of(candidates@);
    assert(names =~= opt_views(hdrop_paths));
    let mut paths: Vec<String> = Vec::new();
    let n = candidates.len();
    let mut i: usize = 0;
    assert(names.take(0) =~= Seq::<Seq<char>>::empty());
    while i < n
        invariant
            n == candidates@.len(),
            names == views_of(candidates@),
            i <= n,
            shell_ids_of(shell_items@) == add_all_unique(
                merged,
                matched_ids(names.take(i as int), opt_view(user_profile)),
            ),
            views_of(paths@) == unmatched_names(names.take(i as int), opt_view(user_profile)),
        decreases n - i,
    {
        let profile = copy_optional_string(&user_profile);
        let path = &candidates[i];
        assert(names.take(i + 1).drop_last() =~= names.take(i as int));
        assert(names.take(i + 1).last() == path@);
        match resolve_shell_id_from_parsing_name(path.as_str(), profile) {
            Some(id) => {
                push_unique_shell_drop_item(&mut shell_items, id);
                proof {
                    lemma_add_all_unique_push(
                        merged,
                        matched_ids(names.take(i as int), opt_view(user_profile)),
                        id@,
                    );
                }
            },
            None => {
                paths.push(path.clone());
                assert(views_of(paths@) =~= unmatched_names(
                    names.take(i + 1),
                    opt_view(user_profile),
                ));
            },
        }
        i = i + 1;
    }
    assert(names.take(n as int) =~= names);
    let items = NativeDropItems { paths, shell_items };
    if items.is_empty() {
        None
    } else {
        Some(items)
    }
}

/// The supported item that a Shell item denotes: by its desktop-absolute parsing name
/// first, else by its file-system path.
pub open spec fn item_shell_id(
    parsing_name: Option<Seq<char>>,
    file_system_path: Option<Seq<char>>,
    user_profile: Option<Seq<char>>,
) -> Option<Seq<char>> {
    match parsing_name {
        Some(p) => match shell_id_for(p, user_profile) {
            Some(id) => Some(id),
            None => match file_system_path {
                Some(f) => shell_id_for(f, user_profile),
                None => None,
            },
        },
        None => match file_system_path {
            Some(f) => shell_id_for(f, user_profile),
            None => None,
        },
    }
}

/// The ids of the Shell items whose names denote a supported item, in order.
pub open spec fn array_item_ids(
    names: Seq<(Option<String>, Option<String>)>,
    user_profile: Option<Seq<char>>,
) -> Seq<Seq<char>>
    decreases names.len(),
{
    if names.len() == 0 {
        Seq::empty()
    } else {
        let rest = array_item_ids(names.drop_last(), user_profile);
        match item_shell_id(opt_view(names.last().0), opt_view(names.last().1), user_profile) {
            Some(id) => rest.push(id),
            None => rest,
        }
    }
}

/// The supported item that a Shell item denotes, from its two names.
fn resolve_item_shell_id(
    parsing_name: &Option<String>,
    file_system_path: &Option<String>,
    user_profile: &Option<String>,
) -> (r: Option<&'static str>)
    ensures
        r is Some == item_shell_id(opt_view(*parsing_name), opt_view(*file_system_path), opt_view(*user_profile)) is Some,
        r matches Some(id) ==> item_shell_id(
            opt_view(*parsing_name),
            opt_view(*file_system_path),
            opt_view(*user_profile),
        ) == Some(id@),
{
    match parsing_name {
        Some(p) => {
            let found = resolve_shell_id_from_parsing_name(p.as_str(), copy_optional_string(user_profile));
            if found.is_some() {
                return found;
            }
        },
        None => {},
    }
    match file_system_path {
        Some(f) => resolve_shell_id_from_parsing_name(f.as_str(), copy_optional_string(user_profile)),
        None => None,
    }
}

/// The supported Shell items of a Shell item array, given for each readable item its
/// desktop-absolute parsing name and its file-system path (either may be missing):
/// each item counts once; nothing when no item is supported.
pub fn resolve_shell_drop_items(
    names: &[(Option<String>, Option<String>)],
    user_profile: Option<String>,
) -> (r: Option<Vec<NativeShellDropItem>>)
    ensures
        ({
            let ids = add_all_unique(Seq::empty(), array_item_ids(names@, opt_view(user_profile)));
            &&& r is Some == (ids.len() > 0)
            &&& r matches Some(items) ==> shell_ids_of(items@) == ids
        }),
{
    let mut shell_items: Vec<NativeShellDropItem> = Vec::new();
    let n = names.len();
    let mut i: usize = 0;
    assert(names@.take(0) =~= Seq::<(Option<String>, Option<String>)>::empty());
    assert(shell_ids_of(shell_items@) =~= Seq::<Seq<char>>::empty());
    while i < n
        invariant
            n == names@.len(),
            i <= n,
            shell_ids_of(shell_items@) == add_all_unique(
                Seq::empty(),
                array_item_ids(names@.take(i as int), opt_view(user_profile)),
            ),
        decreases n - i,
    {
        assert(names@.take(i + 1).drop_last() =~= names@.take(i as int));
        match resolve_item_shell_id(&names[i].0, &names[i].1, &user_profile) {
            Some(id) => {
                push_unique_shell_drop_item(&mut shell_items, id);
                proof {
                    lemma_add_all_unique_push(
                        Seq::empty(),
                        array_item_ids(names@.take(i as int), opt_view(user_profile)),
                        id@,
                    );
                }
            },
            None => {},
        }
        i = i + 1;
    }
    assert(names@.take(n as int) =~= names@);
    if shell_items.len() == 0 {
        None
    } else {
        Some(shell_items)
    }
}

/// The ids of the present names that denote a supported item, in order.
pub open spec fn named_item_ids(names: Seq<Option<String>>, user_profile: Option<Seq<char>>) -> Seq<
    Seq<char>,
>
    decreases names.len(),
{
    if names.len() == 0 {
        Seq::empty()
    } else {
        let rest = named_item_ids(names.drop_last(), user_profile);
        match names.last() {
            Some(name) => match shell_id_for(name@, user_profile) {
                Some(id) => rest.push(id),
                None => rest,
            },
            None => rest,
        }
    }
}

/// The supported Shell items among the parsing names of the children of a Shell ID list
/// (a missing name is a child the Shell could not name): each counts once; nothing when
/// none is supported.
pub fn shell_items_from_parsing_names(names: &[Option<String>], user_profile: Option<String>) -> (r:
    Option<Vec<NativeShellDropItem>>)
    ensures
        ({
            let ids = add_all_unique(Seq::empty(), named_item_ids(names@, opt_view(user_profile)));
            &&& r is Some == (ids.len() > 0)
            &&& r matches Some(items) ==> shell_ids_of(items@) == ids
        }),
{
    let mut shell_items: Vec<NativeShellDropItem> = Vec::new();
    let n = names.len();
    let mut i: usize = 0;
    assert(names@.take(0) =~= Seq::<Option<String>>::empty());
    assert(shell_ids_of(shell_items@) =~= Seq::<Seq<char>>::empty());
    while i < n
        invariant
            n == names@.len(),
            i <= n,
            shell_ids_of(shell_items@) == add_all_unique(
                Seq::empty(),
                named_item_ids(names@.take(i as int), opt_view(user_profile)),
            ),
        decreases n - i,
    {
        assert(names@.take(i + 1).drop_last() =~= names@.take(i as int));
        match &names[i] {
            Some(name) => {
                match resolve_shell_id_from_parsing_name(name.as_str(), copy_optional_string(&user_profile)) {
                    Some(id) => {
                        push_unique_shell_drop_item(&mut shell_items, id);
                        proof {
                            lemma_add_all_unique_push(
                                Seq::empty(),
                                named_item_ids(names@.take(i as int), opt_view(user_profile)),
                                id@,
                            );
                        }
                    },
                    None => {},
                }
            },
            None => {},
        }
        i = i + 1;
    }
    assert(names@.take(n as int) =~= names@);
    if shell_items.len() == 0 {
        None
    } else {
        Some(shell_items)
    }
}

/// The little-endian `u32` at byte `at`.
pub open spec fn le_u32_at(b: Seq<u8>, at: int) -> int {
    b[at] + 256 * b[at + 1] + 65536 * b[at + 2] + 16777216 * b[at + 3]
}

/// The PIDL offsets of a `CIDA` block (`Shell IDList Array`): a `u32` item count `n`
/// followed by `n + 1` `u32` offsets, the parent folder's first. Nothing when the block
/// is shorter than its header, holds no item, or an offset points past its end.
pub open spec fn cida_offsets(b: Seq<u8>) -> Option<Seq<int>> {
    if b.len() < 8 {
        None
    } else {
        let n = le_u32_at(b, 0);
        if n == 0 || 4 + 4 * (n + 1) > b.len() {
            None
        } else if exists|i: int| 0 <= i <= n && #[trigger] le_u32_at(b, 4 + 4 * i) >= b.len() {
            None
        } else {
            Some(Seq::new((n + 1) as nat, |i: int| le_u32_at(b, 4 + 4 * i)))
        }
    }
}

/// The little-endian `u32` at byte `at`.
pub(crate) fn read_u32_le(bytes: &[u8], at: usize) -> (r: u32)
    requires
        at + 4 <= bytes@.len(),
    ensures
        r == le_u32_at(bytes@, at as int),
{
    bytes[at] as u32 + (bytes[at + 1] as u32) * 256 + (bytes[at + 2] as u32) * 65536 + (bytes[at
        + 3] as u32) * 16777216
}

/// Reads the header of a `CIDA` block: the offsets of the parent folder's PIDL and then
/// of each child's.
pub fn parse_cida_offsets(bytes: &[u8]) -> (r: Option<Vec<usize>>)
    ensures
        r is None ==> cida_offsets(bytes@) is None,
        r matches Some(v) ==> cida_offsets(bytes@) == Some(v@.map_values(|x: usize| x as int)),
{
    let size = bytes.len();
    if size < 8 {
        return None;
    }
    let item_count = read_u32_le(bytes, 0);
    if item_count == 0 {
        return None;
    }
    let offset_count = item_count as u64 + 1;
    if 4 + 4 * offset_count > size as u64 {
        return None;
    }
    let count = offset_count as usize;
    let mut offsets: Vec<usize> = Vec::new();
    let mut i: usize = 0;
    while i < count
        invariant
            size == bytes@.len(),
            count == le_u32_at(bytes@, 0) + 1,
            4 + 4 * count <= size,
            i <= count,
            offsets@.len() == i,
            forall|k: int|
                0 <= k < i ==> #[trigger] offsets@[k] == le_u32_at(bytes@, 4 + 4 * k) && offsets@[k]
                    < size,
        decreases count - i,
    {
        let offset = read_u32_le(bytes, 4 + 4 * i) as usize;
        if offset >= size {
            assert(le_u32_at(bytes@, 4 + 4 * (i as int)) >= bytes@.len());
            return None;
        }
        offsets.push(offset);
        i = i + 1;
    }
    assert forall|k: int| 0 <= k <= le_u32_at(bytes@, 0) implies #[trigger] le_u32_at(
        bytes@,
        4 + 4 * k,
    ) < bytes@.len() by {
        assert(offsets@[k] == le_u32_at(bytes@, 4 + 4 * k));
    }
    assert(offsets@.map_values(|x: usize| x as int) =~= Seq::new(
        count as nat,
        |k: int| le_u32_at(bytes@, 4 + 4 * k),
    ));
    Some(offsets)
}

/// The paths of a `CF_HDROP` list as read entry by entry: `(character_count, buffer)`,
/// skipping empty entries, each decoded lossily from its first `character_count` units.
pub open spec fn hdrop_entry_paths(entries: Seq<(u32, Vec<u16>)>) -> Seq<Seq<char>>
    decreases entries.len(),
{
    if entries.len() == 0 {
        Seq::empty()
    } else {
        let rest = hdrop_entry_paths(entries.drop_last());
        let (count, buffer) = entries.last();
        if count == 0 {
            rest
        } else {
            rest.push(utf16_decode_lossy(buffer@.take(count as int)))
        }
    }
}

/// The real paths of a dragged `CF_HDROP` list, from what `DragQueryFileW` reported for
/// each entry; nothing when no entry holds a path.
pub fn hdrop_paths_from_entries(entries: &[(u32, Vec<u16>)]) -> (r: Option<Vec<String>>)
    requires
        forall|i: int| 0 <= i < entries@.len() ==> (#[trigger] entries@[i]).0 <= entries@[i].1@.len(),
    ensures
        r is Some == (hdrop_entry_paths(entries@).len() > 0),
        r matches Some(paths) ==> views_of(paths@) == hdrop_entry_paths(entries@),
{
    let mut paths: Vec<String> = Vec::new();
    let n = entries.len();
    let mut i: usize = 0;
    assert(entries@.take(0) =~= Seq::<(u32, Vec<u16>)>::empty());
    assert(views_of(paths@) =~= Seq::<Seq<char>>::empty());
    while i < n
        invariant
            n == entries@.len(),
            forall|k: int| 0 <= k < n ==> (#[trigger] entries@[k]).0 <= entries@[k].1@.len(),
            i <= n,
            views_of(paths@) == hdrop_entry_paths(entries@.take(i as int)),
        decreases n - i,
    {
        assert(entries@.take(i + 1).drop_last() =~= entries@.take(i as int));
        let count = entries[i].0;
        if count != 0 {
            let units = vstd::slice::slice_subrange(entries[i].1.as_slice(), 0, count as usize);
            assert(units@ =~= entries@[i as int].1@.take(count as int));
            let chars = decode_utf16_lossy(units);
            paths.push(string_from_chars(chars.as_slice()));
            assert(views_of(paths@) =~= hdrop_entry_paths(entries@.take(i + 1)));
        }
        i = i + 1;
    }
    assert(entries@.take(n as int) =~= entries@);
    if paths.len() == 0 {
        None
    } else {
        Some(paths)
    }
}

/// The largest clipboard format number that fits the 16-bit field of `FORMATETC`.
pub const MAX_FORMATETC_CLIPBOARD_FORMAT: u32 = 0xFFFF;

/// The clipboard format number that `RegisterClipboardFormatW` gave `Shell IDList
/// Array`, as the 16-bit `FORMATETC` field; nothing when registration failed (0) or the
/// number does not fit.
pub fn shell_idlist_clipboard_format(registered: u32) -> (r: Option<u16>)
    ensures
        registered == 0 || registered > 0xFFFF ==> r is None,
        0 < registered <= 0xFFFF ==> r == Some(registered as u16),
{
    if registered == 0 || registered > MAX_FORMATETC_CLIPBOARD_FORMAT {
        return None;
    }
    Some(registered as u16)
}

/// A data object is worth accepting when it offers `CF_HDROP`, a Shell ID list, or a
/// Shell item array with a supported item.
pub fn supports_supported_drop_data(
    has_hdrop: bool,
    has_shell_idlist: bool,
    array_items: &Option<Vec<NativeShellDropItem>>,
) -> (r: bool)
    ensures
        r == (has_hdrop || has_shell_idlist || array_items is Some),
{
    has_hdrop || has_shell_idlist || array_items.is_some()
}

/// `DROPEFFECT_NONE`.
pub const DROPEFFECT_NONE: u32 = 0;
/// `DROPEFFECT_COPY`.
pub const DROPEFFECT_COPY: u32 = 1;
/// `DROPEFFECT_MOVE`.
pub const DROPEFFECT_MOVE: u32 = 2;
/// `DROPEFFECT_LINK`.
pub const DROPEFFECT_LINK: u32 = 4;

/// The effect a box answers for the effects a drag source allows: copy when allowed,
/// else link, else move, and copy when the source allows none of them.
pub open spec fn accepted_drop_effect(allowed: u32) -> u32 {
    if allowed & 1 == 1 {
        1
    } else if allowed & 4 == 4 {
        4
    } else if allowed & 2 == 2 {
        2
    } else {
        1
    }
}

/// The effect a box answers for the effects a drag source allows.
pub fn resolve_accepted_drop_effect(allowed_effect: u32) -> (r: u32)
    ensures
        r == accepted_drop_effect(allowed_effect),
{
    if allowed_effect & DROPEFFECT_COPY == DROPEFFECT_COPY {
        return DROPEFFECT_COPY;
    }
    if allowed_effect & DROPEFFECT_LINK == DROPEFFECT_LINK {
        return DROPEFFECT_LINK;
    }
    if allowed_effect & DROPEFFECT_MOVE == DROPEFFECT_MOVE {
        return DROPEFFECT_MOVE;
    }
    DROPEFFECT_COPY
}

/// The accepted effect is always copy, move or link, and one the source allows whenever
/// it allows any of the three.
pub proof fn lemma_accepted_effect_allowed(allowed: u32)
    ensures
        accepted_drop_effect(allowed) == 1 || accepted_drop_effect(allowed) == 2
            || accepted_drop_effect(allowed) == 4,
        allowed & 7 != 0 ==> allowed & accepted_drop_effect(allowed) == accepted_drop_effect(
            allowed,
        ),
{
    assert(allowed & 7 != 0 ==> (allowed & 1 == 1 || allowed & 4 == 4 || allowed & 2 == 2)) by (
    bit_vector);
}

/// A drop position in the client coordinates of the box's web view.
#[derive(Clone, Copy, PartialEq, Eq, Structural, Debug)]
pub struct NativeDropPosition {
    pub x: i32,
    pub y: i32,
}

/// The payload of a drag event, shaped like the front end's built-in drag and drop
/// events: empty lists are left out.
pub struct NativeDragPayload {
    pub paths: Option<Vec<String>>,
    pub position: NativeDropPosition,
    pub shell_items: Option<Vec<NativeShellDropItem>>,
}

/// `p` is the payload for the given paths and Shell items at `position`.
pub open spec fn is_drag_payload(
    p: NativeDragPayload,
    paths: Seq<String>,
    shell_items: Seq<NativeShellDropItem>,
    position: NativeDropPosition,
) -> bool {
    &&& p.position == position
    &&& p.paths is Some == (payload_paths(paths, shell_items).len() > 0)
    &&& p.paths matches Some(v) ==> views_of(v@) == payload_paths(paths, shell_items)
    &&& p.shell_items is Some == (shell_items.len() > 0)
    &&& p.shell_items matches Some(v) ==> v@ == shell_items
}

/// The payload of an enter or drop event: the paths (Shell items included as path keys)
/// and the Shell items, each left out when empty.
pub fn drag_payload(items: NativeDropItems, position: NativeDropPosition) -> (p: NativeDragPayload)
    ensures
        is_drag_payload(p, items.paths@, items.shell_items@, position),
{
    let paths = resolve_payload_paths(&items);
    let ghost all = payload_paths(items.paths@, items.shell_items@);
    assert(views_of(paths@).len() == paths@.len());
    NativeDragPayload {
        paths: optional_non_empty(paths),
        position,
        shell_items: optional_non_empty(items.shell_items),
    }
}

/// The payload of an over event: the position only.
pub fn position_payload(position: NativeDropPosition) -> (p: NativeDragPayload)
    ensures
        p.paths is None,
        p.shell_items is None,
        p.position == position,
{
    NativeDragPayload { paths: None, position, shell_items: None }
}

/// An event for the box's front end.
pub enum DropEvent {
    Enter(NativeDragPayload),
    Over(NativeDragPayload),
    Leave,
    Drop(NativeDragPayload),
}

/// `ev` is an enter event with the payload for the given items at `position`.
pub open spec fn is_enter_event(
    ev: Option<DropEvent>,
    paths: Seq<String>,
    shell_items: Seq<NativeShellDropItem>,
    position: NativeDropPosition,
) -> bool {
    match ev {
        Some(DropEvent::Enter(p)) => is_drag_payload(p, paths, shell_items, position),
        _ => false,
    }
}

/// `ev` is a drop event with the payload for the given items at `position`.
pub open spec fn is_drop_event(
    ev: Option<DropEvent>,
    paths: Seq<String>,
    shell_items: Seq<NativeShellDropItem>,
    position: NativeDropPosition,
) -> bool {
    match ev {
        Some(DropEvent::Drop(p)) => is_drag_payload(p, paths, shell_items, position),
        _ => false,
    }
}

/// `ev` is an over event at `position`.
pub open spec fn is_over_event(ev: Option<DropEvent>, position: NativeDropPosition) -> bool {
    match ev {
        Some(DropEvent::Over(p)) => p.paths is None && p.shell_items is None && p.position
            == position,
        _ => false,
    }
}

/// The paths of optional drop items, or none.
pub open spec fn paths_of(items: Option<NativeDropItems>) -> Seq<String> {
    match items {
        Some(i) => i.paths@,
        None => Seq::empty(),
    }
}

/// The Shell items of optional drop items, or none.
pub open spec fn shell_items_of(items: Option<NativeDropItems>) -> Seq<NativeShellDropItem> {
    match items {
        Some(i) => i.shell_items@,
        None => Seq::empty(),
    }
}

/// The state of a drop target between OLE callbacks: whether the current drag was
/// accepted at enter, and the effect answered while it hovers.
#[derive(Clone, Copy, PartialEq, Eq, Structural, Debug)]
pub struct DropTargetState {
    pub enter_is_valid: bool,
    pub cursor_effect: u32,
}

/// No drag in progress.
pub open spec fn idle_state() -> DropTargetState {
    DropTargetState { enter_is_valid: false, cursor_effect: DROPEFFECT_NONE }
}

/// What a drag brought at enter: whether the data object was readable, whether it held
/// items a box understands, and whether it offered a supported format at all.
pub open spec fn enter_accepted(has_data: bool, has_items: bool, supported: bool) -> bool {
    has_data && (has_items || supported)
}

/// The state after enter.
pub open spec fn state_after_enter(accepted: bool, allowed: u32) -> DropTargetState {
    if accepted {
        DropTargetState { enter_is_valid: true, cursor_effect: accepted_drop_effect(allowed) }
    } else {
        idle_state()
    }
}

/// What a data object offered at enter: the items it carries, if any, and whether it
/// offers a supported format at all.
pub struct EnterData {
    pub items: Option<NativeDropItems>,
    pub supported: bool,
}

impl DropTargetState {
    /// No drag in progress.
    pub fn new() -> (s: Self)
        ensures
            s == idle_state(),
    {
        DropTargetState { enter_is_valid: false, cursor_effect: DROPEFFECT_NONE }
    }

    /// `DragEnter`: a drag without a readable data object, or with neither items nor a
    /// supported format, is refused with no effect; otherwise the enter event carries
    /// the items (none when only the format was promised) and the effect is the accepted
    /// one for what the source allows.
    pub fn drag_enter(&mut self, data: Option<EnterData>, allowed_effect: u32, position: NativeDropPosition) -> (r: (
        u32,
        Option<DropEvent>,
    ))
        ensures
            ({
                let accepted = enter_accepted(
                    data is Some,
                    data is Some && data->0.items is Some,
                    data is Some && data->0.supported,
                );
                &&& *final(self) == state_after_enter(accepted, allowed_effect)
                &&& r.0 == final(self).cursor_effect
                &&& !accepted ==> r.1 is None
                &&& accepted ==> is_enter_event(
                    r.1,
                    paths_of(data->0.items),
                    shell_items_of(data->0.items),
                    position,
                )
            }),
    {
        let data = match data {
            Some(data) => data,
            None => {
                *self = DropTargetState::new();
                return (DROPEFFECT_NONE, None);
            },
        };
        if data.items.is_none() && !data.supported {
            *self = DropTargetState::new();
            return (DROPEFFECT_NONE, None);
        }
        let items = match data.items {
            Some(items) => items,
            None => NativeDropItems::new(),
        };
        let payload = drag_payload(items, position);
        let effect = resolve_accepted_drop_effect(allowed_effect);
        *self = DropTargetState { enter_is_valid: true, cursor_effect: effect };
        (effect, Some(DropEvent::Enter(payload)))
    }

    /// `DragOver`: an accepted drag reports its position; the answer is the effect chosen
    /// at enter.
    pub fn drag_over(&self, position: NativeDropPosition) -> (r: (u32, Option<DropEvent>))
        ensures
            r.0 == self.cursor_effect,
            !self.enter_is_valid ==> r.1 is None,
            self.enter_is_valid ==> is_over_event(r.1, position),
    {
        let event = if self.enter_is_valid {
            Some(DropEvent::Over(position_payload(position)))
        } else {
            None
        };
        (self.cursor_effect, event)
    }

    /// `DragLeave`: an accepted drag reports that it left; the drag ends.
    pub fn drag_leave(&mut self) -> (r: Option<DropEvent>)
        ensures
            old(self).enter_is_valid ==> *final(self) == idle_state() && r matches Some(
                DropEvent::Leave,
            ),
            !old(self).enter_is_valid ==> *final(self) == *old(self) && r is None,
    {
        if self.enter_is_valid {
            *self = DropTargetState::new();
            Some(DropEvent::Leave)
        } else {
            None
        }
    }

    /// `Drop`: an accepted drag delivers the items read again from the data object (a
    /// drag whose data object is gone delivers an empty drop; one whose data object no
    /// longer yields items delivers nothing); the drag ends and the effect is the
    /// accepted one for what the source allows.
    pub fn drop(
        &mut self,
        data: Option<Option<NativeDropItems>>,
        allowed_effect: u32,
        position: NativeDropPosition,
    ) -> (r: (u32, Option<DropEvent>))
        ensures
            *final(self) == idle_state(),
            r.0 == accepted_drop_effect(allowed_effect),
            !old(self).enter_is_valid ==> r.1 is None,
            old(self).enter_is_valid && data is None ==> is_drop_event(
                r.1,
                Seq::empty(),
                Seq::empty(),
                position,
            ),
            old(self).enter_is_valid && data is Some && data->0 is Some ==> is_drop_event(
                r.1,
                paths_of(data->0),
                shell_items_of(data->0),
                position,
            ),
            old(self).enter_is_valid && data is Some && data->0 is None ==> r.1 is None,
    {
        let event = if self.enter_is_valid {
            match data {
                Some(found) => match found {
                    Some(items) => Some(DropEvent::Drop(drag_payload(items, position))),
                    None => None,
                },
                None => Some(DropEvent::Drop(drag_payload(NativeDropItems::new(), position))),
            }
        } else {
            None
        };
        *self = DropTargetState::new();
        (resolve_accepted_drop_effect(allowed_effect), event)
    }
}

/// While an accepted drag hovers, the target answers the effect it chose at enter.
pub proof fn lemma_over_repeats_enter_effect(allowed: u32)
    ensures
        state_after_enter(true, allowed).enter_is_valid,
        state_after_enter(true, allowed).cursor_effect == accepted_drop_effect(allowed),
{
}

} // verus!
