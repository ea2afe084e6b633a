//! Permission checks and the object metadata that keeps permissions.

use std::collections::HashMap;
use vstd::prelude::*;

use crate::config::{PermissionConfig, PermissionMode};
use crate::utils::text::{decimal, lemma_parse_decimal_round_trip, parse_u32, parse_u32_spec, u32_to_decimal};

verus! {

/// What a string-keyed metadata map holds, key and value taken as character sequences.
pub uninterp spec fn string_map_contents(m: HashMap<String, String>) -> Map<Seq<char>, Seq<char>>;

/// `HashMap::new`: an empty map.
#[verifier::external_body]
pub(crate) fn string_map_new() -> (r: HashMap<String, String>)
    ensures
        string_map_contents(r) == (Map::<Seq<char>, Seq<char>>::empty()),
{
    HashMap::new()
}

/// `HashMap::insert`: maps `k` to `v`, replacing any earlier value of `k`.
#[verifier::external_body]
pub(crate) fn string_map_insert(m: &mut HashMap<String, String>, k: String, v: String)
    ensures
        string_map_contents(*final(m)) == string_map_contents(*old(m)).insert(k@, v@),
{
    m.insert(k, v);
}

/// `HashMap::get`: the value of `k`, if the map holds `k`.
#[verifier::external_body]
pub(crate) fn string_map_get<'a>(m: &'a HashMap<String, String>, k: &str) -> (r: Option<&'a String>)
    ensures
        match r {
            Some(v) => string_map_contents(*m).contains_key(k@) && string_map_contents(*m)[k@] == v@,
            None => !string_map_contents(*m).contains_key(k@),
        },
{
    m.get(k)
}

/// Metadata key of the owner's user ID.
pub open spec fn uid_key() -> Seq<char> {
    "x-obs-meta-uid"@
}

/// Metadata key of the owner's group ID.
pub open spec fn gid_key() -> Seq<char> {
    "x-obs-meta-gid"@
}

/// Metadata key of the permission mode.
pub open spec fn mode_key() -> Seq<char> {
    "x-obs-meta-mode"@
}

/// The metadata that keeps `uid`, `gid` and `mode` as decimal strings.
pub open spec fn permission_metadata(uid: u32, gid: u32, mode: u32) -> Map<Seq<char>, Seq<char>> {
    Map::<Seq<char>, Seq<char>>::empty().insert(uid_key(), decimal(uid as nat)).insert(
        gid_key(),
        decimal(gid as nat),
    ).insert(mode_key(), decimal(mode as nat))
}

/// The permissions that metadata `m` keeps, if it keeps all three as numbers.
pub open spec fn parse_permission_metadata(m: Map<Seq<char>, Seq<char>>) -> Option<(u32, u32, u32)> {
    if m.contains_key(uid_key()) && m.contains_key(gid_key()) && m.contains_key(mode_key()) {
        match (parse_u32_spec(m[uid_key()]), parse_u32_spec(m[gid_key()]), parse_u32_spec(m[mode_key()])) {
            (Some(u), Some(g), Some(md)) => Some((u, g, md)),
            _ => None,
        }
    } else {
        None
    }
}

/// Whether a user may read a file: root always; the owner with the owner read
/// bit; a group member with the group read bit; anyone with the other read bit.
pub open spec fn may_read(uid: u32, gid: u32, file_uid: u32, file_gid: u32, mode: u16) -> bool {
    uid == 0 || (uid == file_uid && mode & 0o400 != 0) || (gid == file_gid && mode & 0o040 != 0) || mode
        & 0o004 != 0
}

/// Whether a user may write a file: root always; otherwise as for reading,
/// with the write bits.
pub open spec fn may_write(uid: u32, gid: u32, file_uid: u32, file_gid: u32, mode: u16) -> bool {
    uid == 0 || (uid == file_uid && mode & 0o200 != 0) || (gid == file_gid && mode & 0o020 != 0) || mode
        & 0o002 != 0
}

/// Whether a user may execute a file: root when any execute bit is set;
/// otherwise as for reading, with the execute bits.
pub open spec fn may_execute(uid: u32, gid: u32, file_uid: u32, file_gid: u32, mode: u16) -> bool {
    if uid == 0 {
        mode & 0o111 != 0
    } else {
        (uid == file_uid && mode & 0o100 != 0) || (gid == file_gid && mode & 0o010 != 0) || mode & 0o001
            != 0
    }
}

/// Who may read, write or execute a file. Root may read and write any file,
/// and execute one with any execute bit set. Anyone else is granted an
/// access exactly when one of the bits that apply to them allows it: the
/// owner's bit to the file's owner, the group's bit to a member of the
/// file's group, the other bit to everyone; each grants on its own, whatever
/// the other bits and ids are.
pub proof fn lemma_access_granted_by_class_bits(uid: u32, gid: u32, file_uid: u32, file_gid: u32, mode: u16)
    ensures
        uid == 0 ==> may_read(uid, gid, file_uid, file_gid, mode),
        uid == 0 ==> may_write(uid, gid, file_uid, file_gid, mode),
        uid == 0 ==> (may_execute(uid, gid, file_uid, file_gid, mode) <==> mode & 0o111 != 0),
        uid == file_uid && mode & 0o400 != 0 ==> may_read(uid, gid, file_uid, file_gid, mode),
        gid == file_gid && mode & 0o040 != 0 ==> may_read(uid, gid, file_uid, file_gid, mode),
        mode & 0o004 != 0 ==> may_read(uid, gid, file_uid, file_gid, mode),
        uid == file_uid && mode & 0o200 != 0 ==> may_write(uid, gid, file_uid, file_gid, mode),
        gid == file_gid && mode & 0o020 != 0 ==> may_write(uid, gid, file_uid, file_gid, mode),
        mode & 0o002 != 0 ==> may_write(uid, gid, file_uid, file_gid, mode),
        uid != 0 && uid == file_uid && mode & 0o100 != 0 ==> may_execute(uid, gid, file_uid, file_gid, mode),
        uid != 0 && gid == file_gid && mode & 0o010 != 0 ==> may_execute(uid, gid, file_uid, file_gid, mode),
        uid != 0 && mode & 0o001 != 0 ==> may_execute(uid, gid, file_uid, file_gid, mode),
        uid != 0 && may_read(uid, gid, file_uid, file_gid, mode) ==> (uid == file_uid && mode & 0o400 != 0) || (gid
            == file_gid && mode & 0o040 != 0) || mode & 0o004 != 0,
        uid != 0 && may_write(uid, gid, file_uid, file_gid, mode) ==> (uid == file_uid && mode & 0o200 != 0) || (gid
            == file_gid && mode & 0o020 != 0) || mode & 0o002 != 0,
        uid != 0 && may_execute(uid, gid, file_uid, file_gid, mode) ==> (uid == file_uid && mode & 0o100 != 0) || (gid
            == file_gid && mode & 0o010 != 0) || mode & 0o001 != 0,
{
}

/// Permission manager
pub struct PermissionManager {
    pub config: PermissionConfig,
}

impl PermissionManager {
    /// Create a new permission manager
    pub fn new(config: PermissionConfig) -> (r: Self)
        ensures
            r.config == config,
    {
        PermissionManager { config }
    }

    /// Get default UID
    pub fn default_uid(&self) -> (r: u32)
        ensures
            r == self.config.fixed.uid,
    {
        self.config.fixed.uid
    }

    /// Get default GID
    pub fn default_gid(&self) -> (r: u32)
        ensures
            r == self.config.fixed.gid,
    {
        self.config.fixed.gid
    }

    /// Get default file mode
    pub fn default_file_mode(&self) -> (r: u32)
        ensures
            r == self.config.fixed.file_mode,
    {
        self.config.fixed.file_mode
    }

    /// Get default directory mode
    pub fn default_dir_mode(&self) -> (r: u32)
        ensures
            r == self.config.fixed.dir_mode,
    {
        self.config.fixed.dir_mode
    }

    /// Check if using preserved mode
    pub fn is_preserved_mode(&self) -> (r: bool)
        ensures
            r == (self.config.mode == PermissionMode::Preserved),
    {
        match self.config.mode {
            PermissionMode::Preserved => true,
            PermissionMode::Fixed => false,
        }
    }

    /// Check read permission
    pub fn check_read(&self, uid: u32, gid: u32, file_uid: u32, file_gid: u32, mode: u16) -> (r: bool)
        ensures
            r == may_read(uid, gid, file_uid, file_gid, mode),
    {
        if uid == 0 {
            return true;
        }
        if uid == file_uid && (mode & 0o400) != 0 {
            return true;
        }
        if gid == file_gid && (mode & 0o040) != 0 {
            return true;
        }
        (mode & 0o004) != 0
    }

    /// Check write permission
    pub fn check_write(&self, uid: u32, gid: u32, file_uid: u32, file_gid: u32, mode: u16) -> (r: bool)
        ensures
            r == may_write(uid, gid, file_uid, file_gid, mode),
    {
        if uid == 0 {
            return true;
        }
        if uid == file_uid && (mode & 0o200) != 0 {
            return true;
        }
        if gid == file_gid && (mode & 0o020) != 0 {
            return true;
        }
        (mode & 0o002) != 0
    }

    /// Check execute permission
    pub fn check_execute(&self, uid: u32, gid: u32, file_uid: u32, file_gid: u32, mode: u16) -> (r: bool)
        ensures
            r == may_execute(uid, gid, file_uid, file_gid, mode),
    {
        if uid == 0 {
            return (mode & 0o111) != 0;
        }
        if uid == file_uid && (mode & 0o100) != 0 {
            return true;
        }
        if gid == file_gid && (mode & 0o010) != 0 {
            return true;
        }
        (mode & 0o001) != 0
    }

    /// Build metadata for preserved permissions: in preserved mode the three
    /// IDs as decimal strings, otherwise nothing.
    pub fn build_metadata(&self, uid: u32, gid: u32, mode: u32) -> (r: HashMap<String, String>)
        ensures
            self.config.mode == PermissionMode::Preserved ==> string_map_contents(r)
                == permission_metadata(uid, gid, mode),
            self.config.mode == PermissionMode::Fixed ==> string_map_contents(r) == Map::<
                Seq<char>,
                Seq<char>,
            >::empty(),
    {
        let mut meta = string_map_new();
        if self.is_preserved_mode() {
            string_map_insert(&mut meta, "x-obs-meta-uid".to_owned(), u32_to_decimal(uid));
            string_map_insert(&mut meta, "x-obs-meta-gid".to_owned(), u32_to_decimal(gid));
            string_map_insert(&mut meta, "x-obs-meta-mode".to_owned(), u32_to_decimal(mode));
        }
        meta
    }

    /// Parse permissions from object metadata: in preserved mode, the three IDs
    /// when all are present and numeric; otherwise nothing.
    pub fn parse_metadata(&self, meta: &HashMap<String, String>) -> (r: Option<(u32, u32, u32)>)
        ensures
            self.config.mode == PermissionMode::Preserved ==> r == parse_permission_metadata(
                string_map_contents(*meta),
            ),
            self.config.mode == PermissionMode::Fixed ==> r.is_none(),
    {
        if !self.is_preserved_mode() {
            return None;
        }
        let u = match string_map_get(meta, "x-obs-meta-uid") {
            Some(s) => s,
            None => return None,
        };
        let g = match string_map_get(meta, "x-obs-meta-gid") {
            Some(s) => s,
            None => return None,
        };
        let m = match string_map_get(meta, "x-obs-meta-mode") {
            Some(s) => s,
            None => return None,
        };
        let uid = match parse_u32(u.as_str()) {
            Some(x) => x,
            None => return None,
        };
        let gid = match parse_u32(g.as_str()) {
            Some(x) => x,
            None => return None,
        };
        let mode = match parse_u32(m.as_str()) {
            Some(x) => x,
            None => return None,
        };
        Some((uid, gid, mode))
    }
}

/// Metadata written in preserved mode reads back as the same permissions.
pub proof fn lemma_permission_metadata_round_trip(uid: u32, gid: u32, mode: u32)
    ensures
        parse_permission_metadata(permission_metadata(uid, gid, mode)) == Some((uid, gid, mode)),
{
    reveal_strlit("x-obs-meta-uid");
    reveal_strlit("x-obs-meta-gid");
    reveal_strlit("x-obs-meta-mode");
    let m = permission_metadata(uid, gid, mode);
    assert(uid_key()[11] == 'u' && gid_key()[11] == 'g' && mode_key()[11] == 'm');
    assert(uid_key() != gid_key());
    assert(uid_key() != mode_key());
    assert(gid_key() != mode_key());
    assert(m[uid_key()] == decimal(uid as nat));
    assert(m[gid_key()] == decimal(gid as nat));
    assert(m[mode_key()] == decimal(mode as nat));
    lemma_parse_decimal_round_trip(uid);
    lemma_parse_decimal_round_trip(gid);
    lemma_parse_decimal_round_trip(mode);
}

} // verus!
