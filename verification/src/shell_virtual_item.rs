//! Windows Shell virtual desktop items (This PC, Recycle Bin, ...): the catalog of the
//! supported items, their stable ids, and the desktop items built from them.

use vstd::prelude::*;
use crate::shell_identity::{normalized_identity, identities_match, normalize_shell_identity, shell_identities_match};
use crate::text::{str_equal, concat_str, chars_start_with, chars_of, copy_optional_string, starts_with, opt_view};
use crate::shell_file::{ShellExecuteRequest, opens, open_parsing_name_with_system_default, OPEN_PARSING_NAME_FAILED_MESSAGE};
use vstd::string::StrSliceExecFns;

verus! {

/// Prefix of the path key under which a box stores a Shell virtual item.
pub const SHELL_ITEM_PATH_PREFIX: &'static str = "shell::";

/// Prefix of the id of the desktop item built for a Shell virtual item.
pub const SHELL_ITEM_ID_PREFIX: &'static str = "shell_";

/// Stable id of the user folder, whose parsing name depends on the current user.
pub const USER_FOLDER_SHELL_ID: &'static str = "user-folder";

/// A Windows desktop system icon that boxes can hold.
#[derive(Clone, Copy, PartialEq, Eq, Structural, Debug)]
pub enum ShellVirtualItem {
    ThisPc,
    RecycleBin,
    Network,
    ControlPanel,
    UserFolder,
}

/// The supported items, in catalog order.
pub open spec fn catalog() -> Seq<ShellVirtualItem> {
    seq![
        ShellVirtualItem::ThisPc,
        ShellVirtualItem::RecycleBin,
        ShellVirtualItem::Network,
        ShellVirtualItem::ControlPanel,
        ShellVirtualItem::UserFolder,
    ]
}

impl ShellVirtualItem {
    /// The stable id stored by boxes.
    pub open spec fn spec_id(self) -> Seq<char> {
        match self {
            ShellVirtualItem::ThisPc => "this-pc"@,
            ShellVirtualItem::RecycleBin => "recycle-bin"@,
            ShellVirtualItem::Network => "network"@,
            ShellVirtualItem::ControlPanel => "control-panel"@,
            ShellVirtualItem::UserFolder => USER_FOLDER_SHELL_ID@,
        }
    }

    /// The display name.
    pub open spec fn spec_name(self) -> Seq<char> {
        match self {
            ShellVirtualItem::ThisPc => "此电脑"@,
            ShellVirtualItem::RecycleBin => "回收站"@,
            ShellVirtualItem::Network => "网络"@,
            ShellVirtualItem::ControlPanel => "控制面板"@,
            ShellVirtualItem::UserFolder => "用户文件夹"@,
        }
    }

    /// The Shell parsing names under which Windows reports the item, the preferred one
    /// first.
    pub open spec fn spec_parsing_names(self) -> Seq<Seq<char>> {
        match self {
            ShellVirtualItem::ThisPc => seq!["::{20D04FE0-3AEA-1069-A2D8-08002B30309D}"@],
            ShellVirtualItem::RecycleBin => seq!["::{645FF040-5081-101B-9F08-00AA002F954E}"@],
            ShellVirtualItem::Network => seq!["::{F02C1A0D-BE21-4350-88B0-7367FC96EF3C}"@],
            ShellVirtualItem::ControlPanel => seq![
                "::{26EE0668-A00A-44D7-9371-BEB064C98683}"@,
                "::{5399E694-6CE5-4D6C-8FCE-1D8870FDCBA0}"@,
            ],
            ShellVirtualItem::UserFolder => seq!["::{59031A47-3F72-44A7-89C5-5595FE6B30EE}"@],
        }
    }

    /// The CLSID under which Explorer records whether the desktop shows the icon.
    pub open spec fn spec_desktop_icon_clsid(self) -> Option<Seq<char>> {
        match self {
            ShellVirtualItem::ThisPc => Some("{20D04FE0-3AEA-1069-A2D8-08002B30309D}"@),
            ShellVirtualItem::RecycleBin => Some("{645FF040-5081-101B-9F08-00AA002F954E}"@),
            ShellVirtualItem::Network => Some("{F02C1A0D-BE21-4350-88B0-7367FC96EF3C}"@),
            ShellVirtualItem::ControlPanel => Some("{5399E694-6CE5-4D6C-8FCE-1D8870FDCBA0}"@),
            ShellVirtualItem::UserFolder => Some("{59031A47-3F72-44A7-89C5-5595FE6B30EE}"@),
        }
    }

    /// Whether a fresh Windows desktop shows the icon.
    pub open spec fn spec_default_visible(self) -> bool {
        self == ShellVirtualItem::RecycleBin
    }

    /// The stable id stored by boxes.
    pub fn id(&self) -> (r: &'static str)
        ensures
            r@ == self.spec_id(),
    {
        match self {
            ShellVirtualItem::ThisPc => "this-pc",
            ShellVirtualItem::RecycleBin => "recycle-bin",
            ShellVirtualItem::Network => "network",
            ShellVirtualItem::ControlPanel => "control-panel",
            ShellVirtualItem::UserFolder => USER_FOLDER_SHELL_ID,
        }
    }

    /// The display name.
    pub fn name(&self) -> (r: &'static str)
        ensures
            r@ == self.spec_name(),
    {
        match self {
            ShellVirtualItem::ThisPc => "此电脑",
            ShellVirtualItem::RecycleBin => "回收站",
            ShellVirtualItem::Network => "网络",
            ShellVirtualItem::ControlPanel => "控制面板",
            ShellVirtualItem::UserFolder => "用户文件夹",
        }
    }

    /// The Shell parsing names of the item, the preferred one first.
    pub fn parsing_names(&self) -> (r: Vec<&'static str>)
        ensures
            r@.len() == self.spec_parsing_names().len(),
            forall|i: int| 0 <= i < r@.len() ==> #[trigger] r@[i]@ == self.spec_parsing_names()[i],
    {
        match self {
            ShellVirtualItem::ThisPc => vec!["::{20D04FE0-3AEA-1069-A2D8-08002B30309D}"],
            ShellVirtualItem::RecycleBin => vec!["::{645FF040-5081-101B-9F08-00AA002F954E}"],
            ShellVirtualItem::Network => vec!["::{F02C1A0D-BE21-4350-88B0-7367FC96EF3C}"],
            ShellVirtualItem::ControlPanel => vec![
                "::{26EE0668-A00A-44D7-9371-BEB064C98683}",
                "::{5399E694-6CE5-4D6C-8FCE-1D8870FDCBA0}",
            ],
            ShellVirtualItem::UserFolder => vec!["::{59031A47-3F72-44A7-89C5-5595FE6B30EE}"],
        }
    }

    /// The CLSID under which Explorer records whether the desktop shows the icon.
    pub fn desktop_icon_clsid(&self) -> (r: Option<&'static str>)
        ensures
            r is Some == self.spec_desktop_icon_clsid() is Some,
            r matches Some(c) ==> self.spec_desktop_icon_clsid() == Some(c@),
    {
        match self {
            ShellVirtualItem::ThisPc => Some("{20D04FE0-3AEA-1069-A2D8-08002B30309D}"),
            ShellVirtualItem::RecycleBin => Some("{645FF040-5081-101B-9F08-00AA002F954E}"),
            ShellVirtualItem::Network => Some("{F02C1A0D-BE21-4350-88B0-7367FC96EF3C}"),
            ShellVirtualItem::ControlPanel => Some("{5399E694-6CE5-4D6C-8FCE-1D8870FDCBA0}"),
            ShellVirtualItem::UserFolder => Some("{59031A47-3F72-44A7-89C5-5595FE6B30EE}"),
        }
    }

    /// Whether a fresh Windows desktop shows the icon.
    pub fn default_visible(&self) -> (r: bool)
        ensures
            r == self.spec_default_visible(),
    {
        match self {
            ShellVirtualItem::RecycleBin => true,
            _ => false,
        }
    }
}

/// The supported items, in catalog order.
pub fn known_shell_virtual_items() -> (items: Vec<ShellVirtualItem>)
    ensures
        items@ == catalog(),
{
    let items = vec![
        ShellVirtualItem::ThisPc,
        ShellVirtualItem::RecycleBin,
        ShellVirtualItem::Network,
        ShellVirtualItem::ControlPanel,
        ShellVirtualItem::UserFolder,
    ];
    assert(items@ =~= catalog());
    items
}

/// The first item of `items` whose id is `id`.
pub open spec fn first_with_id(items: Seq<ShellVirtualItem>, id: Seq<char>) -> Option<
    ShellVirtualItem,
>
    decreases items.len(),
{
    if items.len() == 0 {
        None
    } else if items[0].spec_id() == id {
        Some(items[0])
    } else {
        first_with_id(items.subrange(1, items.len() as int), id)
    }
}

/// The catalog item with the given id.
pub open spec fn known_item(id: Seq<char>) -> Option<ShellVirtualItem> {
    first_with_id(catalog(), id)
}

/// The catalog item with the given stable id, if the id is supported.
pub fn resolve_known_shell_virtual_item(shell_id: &str) -> (r: Option<ShellVirtualItem>)
    ensures
        r == known_item(shell_id@),
{
    let items = known_shell_virtual_items();
    let n = items.len();
    let mut i: usize = 0;
    assert(items@.subrange(0, n as int) =~= items@);
    while i < n
        invariant
            n == items@.len(),
            items@ == catalog(),
            i <= n,
            first_with_id(items@, shell_id@) == first_with_id(
                items@.subrange(i as int, n as int),
                shell_id@,
            ),
        decreases n - i,
    {
        let ghost rest = items@.subrange(i as int, n as int);
        let item = items[i];
        if str_equal(item.id(), shell_id) {
            return Some(item);
        }
        assert(rest.subrange(1, rest.len() as int) =~= items@.subrange(i + 1, n as int));
        i = i + 1;
    }
    None
}

/// The catalog item with the given id when Explorer can show or hide it on the desktop.
pub open spec fn desktop_icon_item(id: Seq<char>) -> Option<ShellVirtualItem> {
    match known_item(id) {
        Some(item) => if item.spec_desktop_icon_clsid() is Some {
            Some(item)
        } else {
            None
        },
        None => None,
    }
}

/// The catalog item with the given id when Explorer can show or hide it on the desktop.
pub fn resolve_desktop_icon_item(shell_id: &str) -> (r: Option<ShellVirtualItem>)
    ensures
        r == desktop_icon_item(shell_id@),
{
    match resolve_known_shell_virtual_item(shell_id) {
        Some(item) => if item.desktop_icon_clsid().is_some() {
            Some(item)
        } else {
            None
        },
        None => None,
    }
}

/// The parsing name under which the Shell opens the item: the current user's profile
/// folder for the user folder, else the item's preferred parsing name.
pub open spec fn shell_parsing_name(id: Seq<char>, user_profile: Option<Seq<char>>) -> Option<
    Seq<char>,
> {
    if id == USER_FOLDER_SHELL_ID@ {
        user_profile
    } else {
        match known_item(id) {
            Some(item) => Some(item.spec_parsing_names()[0]),
            None => None,
        }
    }
}

/// The parsing name under which the Shell opens the item with the given id; the user
/// folder resolves to the current user's profile folder, when it is known.
pub fn resolve_shell_parsing_name(shell_id: &str, user_profile: Option<String>) -> (r: Option<String>)
    ensures
        opt_view(r) == shell_parsing_name(shell_id@, opt_view(user_profile)),
{
    if str_equal(shell_id, USER_FOLDER_SHELL_ID) {
        return user_profile;
    }
    match resolve_known_shell_virtual_item(shell_id) {
        Some(item) => {
            let names = item.parsing_names();
            Some(names[0].to_owned())
        },
        None => None,
    }
}

/// Some parsing name of the list matches the normalised identity.
pub open spec fn any_name_matches(normalized: Seq<char>, names: Seq<Seq<char>>) -> bool {
    exists|i: int| 0 <= i < names.len() && identities_match(normalized, #[trigger] names[i])
}

/// The first item of `items` one of whose parsing names matches.
pub open spec fn first_matching(items: Seq<ShellVirtualItem>, normalized: Seq<char>) -> Option<
    ShellVirtualItem,
>
    decreases items.len(),
{
    if items.len() == 0 {
        None
    } else if any_name_matches(normalized, items[0].spec_parsing_names()) {
        Some(items[0])
    } else {
        first_matching(items.subrange(1, items.len() as int), normalized)
    }
}

/// The stable id of the supported item that a parsing name or path denotes: the first
/// catalog item with a matching parsing name, else the user folder when the name is the
/// current user's profile folder.
pub open spec fn shell_id_for(name: Seq<char>, user_profile: Option<Seq<char>>) -> Option<
    Seq<char>,
> {
    let n = normalized_identity(name);
    match first_matching(catalog(), n) {
        Some(item) => Some(item.spec_id()),
        None => match user_profile {
            Some(p) => if identities_match(n, p) {
                Some(USER_FOLDER_SHELL_ID@)
            } else {
                None
            },
            None => None,
        },
    }
}

/// Whether one of the parsing names of `item` matches the normalised identity.
fn item_matches(item: ShellVirtualItem, normalized: &[char]) -> (r: bool)
    ensures
        r == any_name_matches(normalized@, item.spec_parsing_names()),
{
    let names = item.parsing_names();
    let n = names.len();
    let mut i: usize = 0;
    while i < n
        invariant
            n == names@.len() == item.spec_parsing_names().len(),
            forall|k: int| 0 <= k < n ==> #[trigger] names@[k]@ == item.spec_parsing_names()[k],
            i <= n,
            forall|k: int|
                0 <= k < i ==> !identities_match(normalized@, #[trigger] item.spec_parsing_names()[k]),
        decreases n - i,
    {
        if shell_identities_match(normalized, names[i]) {
            assert(names@[i as int]@ == item.spec_parsing_names()[i as int]);
            return true;
        }
        assert(names@[i as int]@ == item.spec_parsing_names()[i as int]);
        i = i + 1;
    }
    false
}

/// Recognises a supported desktop system icon from a Shell parsing name or a real path,
/// so that drag and drop can store a stable reference. `user_profile` is the current
/// user's profile folder, when Windows reports it.
pub fn resolve_shell_id_from_parsing_name(parsing_name: &str, user_profile: Option<String>) -> (r:
    Option<&'static str>)
    ensures
        r is Some == shell_id_for(parsing_name@, opt_view(user_profile)) is Some,
        r matches Some(id) ==> shell_id_for(parsing_name@, opt_view(user_profile)) == Some(id@),
{
    let normalized = normalize_shell_identity(parsing_name);
    let items = known_shell_virtual_items();
    let n = items.len();
    let mut i: usize = 0;
    assert(items@.subrange(0, n as int) =~= items@);
    while i < n
        invariant
            n == items@.len(),
            items@ == catalog(),
            normalized@ == normalized_identity(parsing_name@),
            i <= n,
            first_matching(items@, normalized@) == first_matching(
                items@.subrange(i as int, n as int),
                normalized@,
            ),
        decreases n - i,
    {
        let ghost rest = items@.subrange(i as int, n as int);
        let item = items[i];
        if item_matches(item, normalized.as_slice()) {
            return Some(item.id());
        }
        assert(rest.subrange(1, rest.len() as int) =~= items@.subrange(i + 1, n as int));
        i = i + 1;
    }
    assert(items@.subrange(n as int, n as int) =~= Seq::<ShellVirtualItem>::empty());
    match user_profile {
        Some(profile) => if shell_identities_match(normalized.as_slice(), profile.as_str()) {
            Some(USER_FOLDER_SHELL_ID)
        } else {
            None
        },
        None => None,
    }
}

/// The shell id inside a path key that names a Shell virtual item (`shell::<id>`).
pub fn strip_shell_item_path(path: &str) -> (r: Option<&str>)
    ensures
        r is Some == starts_with(path@, SHELL_ITEM_PATH_PREFIX@),
        r matches Some(id) ==> SHELL_ITEM_PATH_PREFIX@ + id@ == path@,
{
    let chars = chars_of(path);
    let prefix = chars_of(SHELL_ITEM_PATH_PREFIX);
    if !chars_start_with(chars.as_slice(), prefix.as_slice()) {
        return None;
    }
    let id = path.substring_char(prefix.len(), chars.len());
    assert(prefix@ + id@ =~= path@);
    Some(id)
}

/// How a desktop item is opened and shown.
#[derive(Clone, Copy, PartialEq, Eq, Structural, Debug)]
pub enum DesktopItemKind {
    /// A Shell virtual item without a file of its own.
    Shell,
}

/// Where a desktop item comes from.
#[derive(Clone, Copy, PartialEq, Eq, Structural, Debug)]
pub enum DesktopItemSource {
    /// The Windows Shell namespace.
    Shell,
}

/// An entry shown in a box.
pub struct DesktopItem {
    pub extension: Option<String>,
    pub icon_data_url: Option<String>,
    pub id: String,
    pub kind: DesktopItemKind,
    pub name: String,
    pub path: String,
    pub shell_id: Option<String>,
    pub source: DesktopItemSource,
}

impl DesktopItem {
    /// A field-by-field copy.
    pub fn duplicate(&self) -> (r: DesktopItem)
        ensures
            r == *self,
    {
        DesktopItem {
            extension: copy_optional_string(&self.extension),
            icon_data_url: copy_optional_string(&self.icon_data_url),
            id: self.id.clone(),
            kind: self.kind,
            name: self.name.clone(),
            path: self.path.clone(),
            shell_id: copy_optional_string(&self.shell_id),
            source: self.source,
        }
    }
}

/// `item` is the desktop item of the Shell virtual item `id`, shown with `icon`.
pub open spec fn is_shell_desktop_item(item: DesktopItem, id: Seq<char>, icon: Option<String>) -> bool {
    &&& known_item(id) matches Some(known)
    &&& item.extension is None
    &&& item.icon_data_url == icon
    &&& item.id@ == SHELL_ITEM_ID_PREFIX@ + id
    &&& item.kind == DesktopItemKind::Shell
    &&& item.name@ == known.spec_name()
    &&& item.path@ == SHELL_ITEM_PATH_PREFIX@ + id
    &&& opt_view(item.shell_id) == Some(id)
    &&& item.source == DesktopItemSource::Shell
}

/// Whether a desktop item can be built for `id`: a supported item whose parsing name is
/// known.
pub open spec fn shell_item_available(id: Seq<char>, user_profile: Option<Seq<char>>) -> bool {
    known_item(id) is Some && shell_parsing_name(id, user_profile) is Some
}

/// Builds the desktop item of a Shell virtual item: id `shell_<id>`, path key
/// `shell::<id>`, the catalog name and the given icon. Unknown ids, and the user folder
/// while the profile folder is unknown, give nothing.
pub fn create_shell_desktop_item(
    shell_id: &str,
    user_profile: Option<String>,
    icon_data_url: Option<String>,
) -> (r: Option<DesktopItem>)
    ensures
        r is Some == shell_item_available(shell_id@, opt_view(user_profile)),
        r matches Some(item) ==> is_shell_desktop_item(item, shell_id@, icon_data_url),
{
    let known = match resolve_known_shell_virtual_item(shell_id) {
        Some(item) => item,
        None => return None,
    };
    let parsing_name = resolve_shell_parsing_name(shell_id, user_profile);
    if parsing_name.is_none() {
        return None;
    }
    Some(
        DesktopItem {
            extension: None,
            icon_data_url,
            id: concat_str(SHELL_ITEM_ID_PREFIX, shell_id),
            kind: DesktopItemKind::Shell,
            name: known.name().to_owned(),
            path: concat_str(SHELL_ITEM_PATH_PREFIX, shell_id),
            shell_id: Some(shell_id.to_owned()),
            source: DesktopItemSource::Shell,
        },
    )
}

/// The item cached under `id`: the first entry with that key.
pub open spec fn cache_lookup(entries: Seq<(String, DesktopItem)>, id: Seq<char>) -> Option<
    DesktopItem,
>
    decreases entries.len(),
{
    if entries.len() == 0 {
        None
    } else if entries[0].0@ == id {
        Some(entries[0].1)
    } else {
        cache_lookup(entries.subrange(1, entries.len() as int), id)
    }
}

/// Desktop items already built for Shell virtual items, so that polling does not
/// resolve icons again; an item stays as first built for the life of the cache.
pub struct ShellVirtualItemCache {
    entries: Vec<(String, DesktopItem)>,
}

impl ShellVirtualItemCache {
    /// The item cached under `id`.
    pub closed spec fn get(&self, id: Seq<char>) -> Option<DesktopItem> {
        cache_lookup(self.entries@, id)
    }

    /// An empty cache.
    pub fn new() -> (cache: Self)
        ensures
            forall|id: Seq<char>| #[trigger] cache.get(id) is None,
    {
        ShellVirtualItemCache { entries: Vec::new() }
    }

    /// The item cached under `shell_id`, if any.
    pub fn cached(&self, shell_id: &str) -> (r: Option<DesktopItem>)
        ensures
            r == self.get(shell_id@),
    {
        let n = self.entries.len();
        let mut i: usize = 0;
        assert(self.entries@.subrange(0, n as int) =~= self.entries@);
        while i < n
            invariant
                n == self.entries@.len(),
                i <= n,
                cache_lookup(self.entries@, shell_id@) == cache_lookup(
                    self.entries@.subrange(i as int, n as int),
                    shell_id@,
                ),
            decreases n - i,
        {
            let ghost rest = self.entries@.subrange(i as int, n as int);
            if str_equal(self.entries[i].0.as_str(), shell_id) {
                return Some(self.entries[i].1.duplicate());
            }
            assert(rest.subrange(1, rest.len() as int) =~= self.entries@.subrange(
                i + 1,
                n as int,
            ));
            i = i + 1;
        }
        None
    }

    /// The desktop item of a Shell virtual item: the cached one when there is one,
    /// otherwise one built with the given icon, which is then cached.
    pub fn resolve_cached_shell_desktop_item(
        &mut self,
        shell_id: &str,
        user_profile: Option<String>,
        icon_data_url: Option<String>,
    ) -> (r: Option<DesktopItem>)
        ensures
            old(self).get(shell_id@) is Some ==> r == old(self).get(shell_id@) && forall|
                id: Seq<char>,
            | #[trigger] final(self).get(id) == old(self).get(id),
            old(self).get(shell_id@) is None ==> {
                &&& r is Some == shell_item_available(shell_id@, opt_view(user_profile))
                &&& r matches Some(item) ==> is_shell_desktop_item(
                    item,
                    shell_id@,
                    icon_data_url,
                )
                &&& final(self).get(shell_id@) == r
                &&& forall|id: Seq<char>|
                    id != shell_id@ ==> #[trigger] final(self).get(id) == old(self).get(id)
            },
    {
        let hit = self.cached(shell_id);
        if hit.is_some() {
            return hit;
        }
        let created = create_shell_desktop_item(shell_id, user_profile, icon_data_url);
        match created {
            Some(item) => {
                let stored = item.duplicate();
                let ghost before = self.entries@;
                let key = shell_id.to_owned();
                self.entries.push((key, stored));
                proof {
                    assert forall|id: Seq<char>| #[trigger] self.get(id) == if id == shell_id@ {
                        Some(item)
                    } else {
                        cache_lookup(before, id)
                    } by {
                        lemma_lookup_after_push(before, (key, item), id);
                    }
                }
                Some(item)
            },
            None => None,
        }
    }
}

/// The path key of a Shell virtual item gives its id back: `strip_shell_item_path`
/// accepts `shell::<id>` and the only id it can answer is `id`.
pub proof fn lemma_path_key_round_trip(id: Seq<char>, other: Seq<char>)
    ensures
        starts_with(SHELL_ITEM_PATH_PREFIX@ + id, SHELL_ITEM_PATH_PREFIX@),
        SHELL_ITEM_PATH_PREFIX@ + other == SHELL_ITEM_PATH_PREFIX@ + id ==> other == id,
{
    let p = SHELL_ITEM_PATH_PREFIX@;
    assert((p + id).subrange(0, p.len() as int) =~= p);
    if p + other == p + id {
        assert(other =~= (p + other).subrange(p.len() as int, (p + other).len() as int));
        assert(id =~= (p + id).subrange(p.len() as int, (p + id).len() as int));
    }
}

/// Message when a virtual item cannot be opened.
pub const UNSUPPORTED_OPEN_MESSAGE: &'static str = "暂不支持打开该系统桌面项目";

/// Opens a Shell virtual item through its parsing name rather than a real path;
/// refused for ids without one.
pub fn open_shell_virtual_item(shell_id: &str, user_profile: Option<String>) -> (r: Result<
    ShellExecuteRequest,
    String,
>)
    ensures
        shell_parsing_name(shell_id@, opt_view(user_profile)) is None ==> r is Err && r->Err_0@
            == UNSUPPORTED_OPEN_MESSAGE@,
        shell_parsing_name(shell_id@, opt_view(user_profile)) matches Some(name) ==> r is Ok
            && opens(r->Ok_0, name, OPEN_PARSING_NAME_FAILED_MESSAGE@),
{
    match resolve_shell_parsing_name(shell_id, user_profile) {
        Some(parsing_name) => Ok(open_parsing_name_with_system_default(parsing_name.as_str())),
        None => Err(UNSUPPORTED_OPEN_MESSAGE.to_owned()),
    }
}

/// The present values of a sequence of options, in order.
pub open spec fn present_items(s: Seq<Option<DesktopItem>>) -> Seq<DesktopItem>
    decreases s.len(),
{
    if s.len() == 0 {
        Seq::empty()
    } else {
        let rest = present_items(s.drop_last());
        match s.last() {
            Some(item) => rest.push(item),
            None => rest,
        }
    }
}

/// The desktop items of the stored Shell ids, in order; ids that cannot be resolved are
/// left out. `icons[i]` is the icon offered for `shell_ids[i]`, used when that item is
/// built rather than found in the cache.
pub fn list_shell_virtual_desktop_items(
    cache: &mut ShellVirtualItemCache,
    shell_ids: &[String],
    user_profile: Option<String>,
    icons: &[Option<String>],
) -> (items: Vec<DesktopItem>)
    requires
        icons@.len() == shell_ids@.len(),
    ensures
        items@ == present_items(
            Seq::new(shell_ids@.len(), |i: int| final(cache).get(shell_ids@[i]@)),
        ),
        forall|id: Seq<char>|
            old(cache).get(id) is Some ==> #[trigger] final(cache).get(id) == old(cache).get(id),
        forall|id: Seq<char>|
            old(cache).get(id) is None && (forall|i: int|
                0 <= i < shell_ids@.len() ==> shell_ids@[i]@ != id)
                ==> #[trigger] final(cache).get(id) is None,
        forall|i: int|
            0 <= i < shell_ids@.len() && old(cache).get(#[trigger] shell_ids@[i]@) is None && (
            forall|j: int| 0 <= j < i ==> shell_ids@[j]@ != shell_ids@[i]@) ==> {
                let id = shell_ids@[i]@;
                &&& final(cache).get(id) is Some == shell_item_available(
                    id,
                    opt_view(user_profile),
                )
                &&& final(cache).get(id) matches Some(item) ==> is_shell_desktop_item(
                    item,
                    id,
                    icons@[i],
                )
            },
{
    let n = shell_ids.len();
    let ghost ids = shell_ids@;
    let ghost start = *cache;
    let mut items: Vec<DesktopItem> = Vec::new();
    let mut i: usize = 0;
    assert(present_items(Seq::new(0, |k: int| cache.get(ids[k]@))) =~= Seq::<DesktopItem>::empty());
    while i < n
        invariant
            n == ids.len() == icons@.len(),
            ids == shell_ids@,
            i <= n,
            items@ == present_items(Seq::new(i as nat, |k: int| cache.get(ids[k]@))),
            forall|id: Seq<char>|
                start.get(id) is Some ==> #[trigger] cache.get(id) == start.get(id),
            forall|id: Seq<char>|
                start.get(id) is None && (forall|k: int| 0 <= k < i ==> ids[k]@ != id)
                    ==> #[trigger] cache.get(id) is None,
            forall|k: int|
                0 <= k < i ==> (#[trigger] cache.get(ids[k]@) is None ==> !shell_item_available(
                    ids[k]@,
                    opt_view(user_profile),
                )),
            forall|k: int|
                0 <= k < i && start.get(#[trigger] ids[k]@) is None && (forall|j: int|
                    0 <= j < k ==> ids[j]@ != ids[k]@) ==> {
                    &&& cache.get(ids[k]@) is Some == shell_item_available(
                        ids[k]@,
                        opt_view(user_profile),
                    )
                    &&& cache.get(ids[k]@) matches Some(item) ==> is_shell_desktop_item(
                        item,
                        ids[k]@,
                        icons@[k],
                    )
                },
        decreases n - i,
    {
        let ghost before = *cache;
        let icon = copy_optional_string(&icons[i]);
        let profile = copy_optional_string(&user_profile);
        let resolved = cache.resolve_cached_shell_desktop_item(shell_ids[i].as_str(), profile, icon);
        let ghost id = ids[i as int]@;
        proof {
            assert forall|k: int| 0 <= k < i implies #[trigger] cache.get(ids[k]@) == before.get(
                ids[k]@,
            ) by {
                if before.get(id) is None && ids[k]@ == id {
                    assert(!shell_item_available(id, opt_view(user_profile)));
                }
            }
            assert(Seq::new(i as nat, |k: int| cache.get(ids[k]@)) =~= Seq::new(
                i as nat,
                |k: int| before.get(ids[k]@),
            ));
            assert(Seq::new((i + 1) as nat, |k: int| cache.get(ids[k]@)).drop_last() =~= Seq::new(
                i as nat,
                |k: int| cache.get(ids[k]@),
            ));
            assert(cache.get(id) == resolved);
        }
        match resolved {
            Some(item) => {
                items.push(item);
            },
            None => {},
        }
        i = i + 1;
    }
    items
}

/// Looking up after an entry was appended finds earlier entries first.
proof fn lemma_lookup_after_push(
    entries: Seq<(String, DesktopItem)>,
    added: (String, DesktopItem),
    id: Seq<char>,
)
    ensures
        cache_lookup(entries.push(added), id) == match cache_lookup(entries, id) {
            Some(item) => Some(item),
            None => if added.0@ == id {
                Some(added.1)
            } else {
                None
            },
        },
    decreases entries.len(),
{
    let pushed = entries.push(added);
    if entries.len() > 0 {
        let tail = entries.subrange(1, entries.len() as int);
        assert(pushed.subrange(1, pushed.len() as int) =~= tail.push(added));
        assert(pushed[0] == entries[0]);
        lemma_lookup_after_push(tail, added, id);
        if entries[0].0@ == id {
            assert(cache_lookup(pushed, id) == Some(entries[0].1));
        } else {
            assert(cache_lookup(pushed, id) == cache_lookup(tail.push(added), id));
            assert(cache_lookup(entries, id) == cache_lookup(tail, id));
            assert(cache_lookup(tail.push(added), id) == match cache_lookup(tail, id) {
                Some(item) => Some(item),
                None => if added.0@ == id {
                    Some(added.1)
                } else {
                    None
                },
            });
        }
    } else {
        assert(pushed.subrange(1, 1) =~= Seq::<(String, DesktopItem)>::empty());
        assert(pushed[0] == added);
        assert(cache_lookup(entries, id) is None);
        if added.0@ == id {
            assert(cache_lookup(pushed, id) == Some(added.1));
        } else {
            let empty = pushed.subrange(1, pushed.len() as int);
            assert(empty.len() == 0);
            assert(cache_lookup(empty, id) is None);
            assert(cache_lookup(pushed, id) is None);
        }
    }
}

} // verus!
