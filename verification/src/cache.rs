//! The cache of the tool schemas of each server.
//!
//! The list of tools is needed to list them and to read flags, but it rarely
//! changes. From the cache a call with flags costs one round trip, and listing the
//! tools costs none.

use vstd::prelude::*;
use vstd::string::*;

use crate::config::{below, config_dir, config_place, join_to, place_of, Location, Place, Start};
use crate::error::{because, Error, Fault};
use crate::json::{all_wf, copy_list, json_views, Json, JsonV};
use crate::numeral::{decimal, decimal_reads_back, parse_u64, read_u64, show_u64};
use crate::text::{chars_of, concat, concat3, ends_with, opt_str, opt_view, same, string_of};

verus! {

/// How long a cached list stays usable, in seconds.
pub const DEFAULT_TTL: u64 = 86_400;

/// What a cached list is: the mathematical model of [`Entry`].
pub struct Snapshot {
    pub fetched_at: u64,
    pub url: Seq<char>,
    pub tools: Seq<JsonV>,
}

/// A cached list of tools.
pub struct Entry {
    /// When the list was fetched, in Unix seconds.
    pub fetched_at: u64,
    /// Where it came from, so that it is not used for another address.
    pub url: String,
    pub tools: Vec<Json>,
}

impl View for Entry {
    type V = Snapshot;

    open spec fn view(&self) -> Snapshot {
        Snapshot { fetched_at: self.fetched_at, url: self.url@, tools: json_views(self.tools@) }
    }
}

/// The lifetime of a list: the number that the environment gives, if it gives one.
pub open spec fn lifetime(setting: Option<Seq<char>>) -> u64 {
    match setting {
        Some(text) => match read_u64(text) {
            Some(seconds) => seconds,
            None => DEFAULT_TTL,
        },
        None => DEFAULT_TTL,
    }
}

/// The lifetime of a list, from the value of `MCP_CACHE_TTL`. Zero turns the cache
/// off.
pub fn ttl(setting: Option<&str>) -> (r: u64)
    ensures
        r == lifetime(opt_str(setting)),
{
    match setting {
        Some(text) => match parse_u64(text) {
            Some(seconds) => seconds,
            None => DEFAULT_TTL,
        },
        None => DEFAULT_TTL,
    }
}

/// How many seconds have passed, and none when the clock was set back.
pub open spec fn elapsed(from: u64, to: u64) -> int {
    if to >= from {
        to - from
    } else {
        0
    }
}

impl Snapshot {
    /// Whether the list may be used: it came from this address and has not outlived
    /// its lifetime.
    pub open spec fn fresh(self, url: Seq<char>, ttl: u64, now: u64) -> bool {
        self.url == url && elapsed(self.fetched_at, now) < ttl
    }
}

/// Whether a list may be used.
pub fn is_fresh(entry: &Entry, url: &str, ttl: u64, now: u64) -> (r: bool)
    ensures
        r == entry@.fresh(url@, ttl, now),
{
    let passed: u64 = if now >= entry.fetched_at {
        now - entry.fetched_at
    } else {
        0
    };
    same(entry.url.as_str(), url) && passed < ttl
}

// ---------------------------------------------------------------------------
// Files
// ---------------------------------------------------------------------------

/// Whether a character is safe in the name of a file.
pub open spec fn safe_char(c: char) -> bool {
    'a' <= c <= 'z' || 'A' <= c <= 'Z' || '0' <= c <= '9' || c == '-' || c == '_'
}

/// A name with `_` in the place of every character that is not safe.
pub open spec fn safe_name(name: Seq<char>) -> Seq<char> {
    name.map_values(
        |c: char|
            if safe_char(c) {
                c
            } else {
                '_'
            },
    )
}

/// The name of the file with the list of a server.
pub open spec fn entry_name(name: Seq<char>) -> Seq<char> {
    safe_name(name) + ".json"@
}

/// The name of the file with the list of a server: one safe segment of a path,
/// whatever the server is called.
pub fn file_name(name: &str) -> (r: String)
    ensures
        r@ == entry_name(name@),
{
    let chars = chars_of(name);
    let mut safe: Vec<char> = Vec::new();
    let mut i: usize = 0;
    while i < chars.len()
        invariant
            i <= chars@.len(),
            safe@ =~= safe_name(chars@).take(i as int),
        decreases chars@.len() - i,
    {
        let c = chars[i];
        let ok = ('a' <= c && c <= 'z') || ('A' <= c && c <= 'Z') || ('0' <= c && c <= '9') || c == '-'
            || c == '_';
        safe.push(
            if ok {
                c
            } else {
                '_'
            },
        );
        i += 1;
    }
    assert(safe@ =~= safe_name(name@));
    concat(string_of(safe.as_slice()).as_str(), ".json")
}

/// The directory of the cache, below that of this program.
pub open spec fn cache_place(chosen: Option<Seq<char>>, has_home: bool) -> Result<Place, Fault> {
    below(config_place(chosen, has_home), "cache"@)
}

/// The directory of the cache.
pub fn cache_dir(chosen: Option<String>, has_home: bool) -> (r: Result<Location, Error>)
    ensures
        place_of(r) == cache_place(opt_view(chosen), has_home),
{
    join_to(config_dir(chosen, has_home), "cache")
}

/// The file with the list of a server.
pub fn path(name: &str, chosen: Option<String>, has_home: bool) -> (r: Result<Location, Error>)
    ensures
        place_of(r) == below(cache_place(opt_view(chosen), has_home), entry_name(name@)),
{
    join_to(cache_dir(chosen, has_home), file_name(name).as_str())
}

// ---------------------------------------------------------------------------
// Loading and storing
// ---------------------------------------------------------------------------

/// The list that the cache gives for an address: none when the cache is off, holds
/// nothing that can be read, or holds a list that may not be used.
pub open spec fn cached(entry: Option<Snapshot>, url: Seq<char>, ttl: u64, now: u64) -> Option<
    Seq<JsonV>,
> {
    match entry {
        Some(snapshot) => if ttl != 0 && snapshot.fresh(url, ttl, now) {
            Some(snapshot.tools)
        } else {
            None
        },
        None => None,
    }
}

/// The view of an optional entry.
pub open spec fn opt_entry(entry: Option<Entry>) -> Option<Snapshot> {
    match entry {
        Some(entry) => Some(entry@),
        None => None,
    }
}

/// The view of an optional list.
pub open spec fn opt_tools(tools: Option<Vec<Json>>) -> Option<Seq<JsonV>> {
    match tools {
        Some(tools) => Some(json_views(tools@)),
        None => None,
    }
}

/// Whether the file of a list is worth reading: not when the cache is off.
pub fn is_on(ttl: u64) -> (r: bool)
    ensures
        r == (ttl != 0),
{
    ttl != 0
}

/// The list that the cache gives, from the entry in the file if one could be read.
pub fn load(entry: Option<Entry>, url: &str, ttl: u64, now: u64) -> (r: Option<Vec<Json>>)
    ensures
        opt_tools(r) == cached(opt_entry(entry), url@, ttl, now),
        r matches Some(tools) ==> entry is Some && tools == entry->0.tools,
{
    if !is_on(ttl) {
        return None;
    }
    match entry {
        Some(entry) => if is_fresh(&entry, url, ttl, now) {
            Some(entry.tools)
        } else {
            None
        },
        None => None,
    }
}

/// What is stored for an address: nothing while the cache is off.
pub open spec fn snapshot_of(url: Seq<char>, tools: Seq<JsonV>, ttl: u64, now: u64) -> Option<Snapshot> {
    if ttl == 0 {
        None
    } else {
        Some(Snapshot { fetched_at: now, url, tools })
    }
}

/// What is to be written for a list: an entry of this moment, or nothing when the
/// cache is off.
pub fn store(url: &str, tools: &Vec<Json>, ttl: u64, now: u64) -> (r: Option<Entry>)
    ensures
        opt_entry(r) == snapshot_of(url@, json_views(tools@), ttl, now),
        all_wf(tools@) ==> (r matches Some(entry) ==> all_wf(entry.tools@)),
{
    if !is_on(ttl) {
        return None;
    }
    Some(Entry { fetched_at: now, url: url.to_owned(), tools: copy_list(tools) })
}

// ---------------------------------------------------------------------------
// Clearing
// ---------------------------------------------------------------------------

/// What removing a file gave.
pub enum Removal {
    Removed,
    /// There was no such file.
    Missing,
    /// The complaint of the file system.
    Failed(String),
}

/// The error that a directory cannot be read.
pub open spec fn unread(dir: Seq<char>, cause: Seq<char>) -> Fault {
    because("reading "@ + dir, cause)
}

/// The error that a file cannot be removed.
pub open spec fn undeleted(path: Seq<char>, cause: Seq<char>) -> Fault {
    because("removing "@ + path, cause)
}

/// How many files are gone when the list of one server was to be removed.
pub fn clear(path: &str, removal: Removal) -> (r: Result<usize, Error>)
    ensures
        match removal {
            Removal::Removed => r == Ok::<usize, Error>(1),
            Removal::Missing => r == Ok::<usize, Error>(0),
            Removal::Failed(cause) => r matches Err(e) && e@ == undeleted(path@, cause@),
        },
{
    match removal {
        Removal::Removed => Ok(1),
        Removal::Missing => Ok(0),
        Removal::Failed(cause) => Err(Error::because(concat("removing ", path), cause)),
    }
}

/// Whether a file belongs to the cache, from its name.
pub open spec fn named_as_entry(name: Seq<char>) -> bool {
    ".json"@.is_suffix_of(name)
}

/// Whether a file belongs to the cache, from its name.
pub fn is_entry(name: &str) -> (r: bool)
    ensures
        r == named_as_entry(name@),
{
    ends_with(name, ".json")
}

/// The removal of the lists of all servers, file by file.
pub struct Sweep {
    /// How the directory of the cache is shown.
    pub dir: String,
    /// How many files are gone.
    pub removed: usize,
}

impl Sweep {
    /// A removal that has not begun.
    pub fn new(dir: String) -> (r: Sweep)
        ensures
            r.dir == dir,
            r.removed == 0,
    {
        Sweep { dir, removed: 0 }
    }

    /// Whether there is a directory to go through, when opening it gave `opened`: the
    /// directory, nothing where there is none, or the complaint of the file system.
    pub fn begin(&self, opened: Result<bool, String>) -> (r: Result<bool, Error>)
        ensures
            match opened {
                Ok(there) => r == Ok::<bool, Error>(there),
                Err(cause) => r matches Err(e) && e@ == unread(self.dir@, cause@),
            },
    {
        match opened {
            Ok(there) => Ok(there),
            Err(cause) => Err(Error::because(concat("reading ", self.dir.as_str()), cause)),
        }
    }

    /// Whether the next file is to be removed, when reading the directory gave its
    /// name or a complaint of the file system.
    pub fn wants(&self, found: Result<String, String>) -> (r: Result<bool, Error>)
        ensures
            match found {
                Ok(name) => r == Ok::<bool, Error>(named_as_entry(name@)),
                Err(cause) => r matches Err(e) && e@ == unread(self.dir@, cause@),
            },
    {
        match found {
            Ok(name) => Ok(is_entry(name.as_str())),
            Err(cause) => Err(Error::because(concat("reading ", self.dir.as_str()), cause)),
        }
    }

    /// Counts a file that was to be removed, unless the file system complained.
    pub fn count(&mut self, path: &str, complaint: Option<String>) -> (r: Result<(), Error>)
        requires
            old(self).removed < usize::MAX,
        ensures
            final(self).dir == old(self).dir,
            match complaint {
                None => r is Ok && final(self).removed == old(self).removed + 1,
                Some(cause) => {
                    &&& r matches Err(e)
                    &&& e@ == undeleted(path@, cause@)
                    &&& final(self).removed == old(self).removed
                },
            },
    {
        match complaint {
            None => {
                self.removed = self.removed + 1;
                Ok(())
            },
            Some(cause) => Err(Error::because(concat("removing ", path), cause)),
        }
    }
}

/// What the user is told when lists were removed.
pub open spec fn cleared(server: Option<Seq<char>>, removed: nat) -> Seq<char> {
    match server {
        Some(name) => if removed == 0 {
            "No cached schemas for "@ + name
        } else {
            "Cleared cached schemas for "@ + name
        },
        None => if removed == 0 {
            "No cached schemas to clear"@
        } else if removed == 1 {
            "Cleared cached schemas for 1 server"@
        } else {
            "Cleared cached schemas for "@ + decimal(removed) + " servers"@
        },
    }
}

/// What the user is told when lists were removed.
pub fn clear_message(server: Option<&str>, removed: usize) -> (r: String)
    ensures
        r@ == cleared(opt_str(server), removed as nat),
{
    match server {
        Some(name) => if removed == 0 {
            concat("No cached schemas for ", name)
        } else {
            concat("Cleared cached schemas for ", name)
        },
        None => if removed == 0 {
            "No cached schemas to clear".to_owned()
        } else if removed == 1 {
            "Cleared cached schemas for 1 server".to_owned()
        } else {
            concat3("Cleared cached schemas for ", show_u64(removed as u64).as_str(), " servers")
        },
    }
}

// ---------------------------------------------------------------------------
// Laws
// ---------------------------------------------------------------------------

/// A stored list is given back until its lifetime is over, and not from then on.
pub proof fn a_stored_list_lives_for_its_lifetime(
    tools: Seq<JsonV>,
    url: Seq<char>,
    ttl: u64,
    stored_at: u64,
    now: u64,
)
    requires
        ttl != 0,
    ensures
        ({
            let entry = Some(Snapshot { fetched_at: stored_at, url, tools });
            &&& now < stored_at + ttl ==> cached(entry, url, ttl, now) == Some(tools)
            &&& now >= stored_at + ttl ==> cached(entry, url, ttl, now) is None
        }),
{
}

/// A list that came from one address is never given for another.
pub proof fn another_address_finds_nothing(
    entry: Snapshot,
    url: Seq<char>,
    ttl: u64,
    now: u64,
)
    requires
        entry.url != url,
    ensures
        cached(Some(entry), url, ttl, now) is None,
{
}

/// With a lifetime of zero the cache gives nothing.
pub proof fn zero_turns_the_cache_off(entry: Option<Snapshot>, url: Seq<char>, now: u64)
    ensures
        cached(entry, url, 0, now) is None,
{
}

/// A clock that was set back expires nothing.
pub proof fn a_clock_set_back_expires_nothing(entry: Snapshot, ttl: u64, now: u64)
    requires
        ttl != 0,
        now <= entry.fetched_at,
    ensures
        cached(Some(entry), entry.url, ttl, now) == Some(entry.tools),
{
}

/// Whatever a server is called, the file that is written for it is one that clearing
/// the whole cache removes.
pub proof fn what_is_stored_is_cleared(name: Seq<char>)
    ensures
        named_as_entry(entry_name(name)),
{
    assert(entry_name(name).subrange(
        entry_name(name).len() - ".json"@.len(),
        entry_name(name).len() as int,
    ) =~= ".json"@);
}

/// Whatever a server is called, the name of its file holds no separator of paths,
/// and is neither the directory itself nor the one above it.
pub proof fn file_names_are_single_segments(name: Seq<char>)
    ensures
        forall|i: int|
            0 <= i < entry_name(name).len() ==> (#[trigger] entry_name(name)[i]) != '/'
                && entry_name(name)[i] != '\\' && entry_name(name)[i] != '\0',
        entry_name(name) != "."@,
        entry_name(name) != ".."@,
        entry_name(name).len() == name.len() + 5,
{
    reveal_strlit(".json");
    reveal_strlit(".");
    reveal_strlit("..");
    let n = entry_name(name);
    assert(".json"@.len() == 5);
    assert("."@.len() == 1);
    assert(".."@.len() == 2);
    assert forall|i: int| 0 <= i < n.len() implies (#[trigger] n[i]) != '/' && n[i] != '\\' && n[i]
        != '\0' by {
        if i < name.len() {
            assert(n[i] == safe_name(name)[i]);
        } else {
            assert(n[i] == ".json"@[i - name.len()]);
        }
    }
}

/// A safe name stays as it is, so that different safe names have different files.
pub proof fn safe_names_stay(name: Seq<char>)
    requires
        forall|i: int| 0 <= i < name.len() ==> safe_char(#[trigger] name[i]),
    ensures
        entry_name(name) == name + ".json"@,
{
    assert(safe_name(name) =~= name);
}

/// The lifetime of cached lists is a day, unless a number of seconds is set.
pub proof fn the_lifetime_is_a_day_unless_set(seconds: u64, text: Seq<char>)
    ensures
        lifetime(None) == 24 * 60 * 60,
        lifetime(Some(decimal(seconds as nat))) == seconds,
        read_u64(text) is None ==> lifetime(Some(text)) == 24 * 60 * 60,
{
    decimal_reads_back(seconds);
}

/// Letters, digits, dashes and underscores stay in the name of a file, and any other
/// character becomes an underscore.
pub proof fn other_characters_become_underscores(name: Seq<char>, i: int)
    requires
        0 <= i < name.len(),
    ensures
        entry_name(name).len() == name.len() + 5,
        'a' <= name[i] <= 'z' || 'A' <= name[i] <= 'Z' || '0' <= name[i] <= '9' || name[i] == '-'
            || name[i] == '_' ==> entry_name(name)[i] == name[i],
        !('a' <= name[i] <= 'z' || 'A' <= name[i] <= 'Z' || '0' <= name[i] <= '9' || name[i] == '-'
            || name[i] == '_') ==> entry_name(name)[i] == '_',
        entry_name(name).skip(name.len() as int) == ".json"@,
{
    reveal_strlit(".json");
    assert(".json"@.len() == 5);
    assert(entry_name(name).skip(name.len() as int) =~= ".json"@);
}

/// A file belongs to the cache exactly if its name ends in `.json`.
pub proof fn entries_are_told_by_their_ending(start: Seq<char>, name: Seq<char>)
    ensures
        named_as_entry(start + ".json"@),
        named_as_entry(name) ==> name.len() >= 5 && name.skip(name.len() - 5) == ".json"@,
{
    reveal_strlit(".json");
    assert(".json"@.len() == 5);
    let whole = start + ".json"@;
    assert(whole.subrange(whole.len() - 5, whole.len() as int) =~= ".json"@);
    if named_as_entry(name) {
        assert(name.skip(name.len() - 5) =~= name.subrange(name.len() - 5, name.len() as int));
    }
}

/// Without a cached list nothing is found.
pub proof fn nothing_cached_is_nothing_found(url: Seq<char>, ttl: u64, now: u64)
    ensures
        cached(None, url, ttl, now) is None,
{
}

/// The user is told what was cleared: for one server by its name, and else how many.
pub proof fn clearing_is_reported(name: Seq<char>, n: nat)
    ensures
        cleared(Some(name), 0) == "No cached schemas for "@ + name,
        n > 0 ==> cleared(Some(name), n) == "Cleared cached schemas for "@ + name,
        cleared(None, 0) == "No cached schemas to clear"@,
        cleared(None, 1) == "Cleared cached schemas for 1 server"@,
        n > 1 ==> cleared(None, n) == "Cleared cached schemas for "@ + decimal(n) + " servers"@,
{
}

/// What was stored is found again for the same address until its lifetime is over, and
/// not at all while the cache is off.
pub proof fn what_was_stored_is_found(
    url: Seq<char>,
    other: Seq<char>,
    tools: Seq<JsonV>,
    ttl: u64,
    stored_at: u64,
    now: u64,
)
    ensures
        ttl > 0 && now < stored_at + ttl ==> cached(
            snapshot_of(url, tools, ttl, stored_at),
            url,
            ttl,
            now,
        ) == Some(tools),
        now >= stored_at + ttl ==> cached(snapshot_of(url, tools, ttl, stored_at), url, ttl, now) is None,
        other != url ==> cached(snapshot_of(url, tools, ttl, stored_at), other, ttl, now) is None,
        snapshot_of(url, tools, 0, stored_at) is None,
{
}

/// The cache lies in a directory of its own below that of this program, and an error of
/// the file system names what it is about.
pub proof fn the_cache_has_its_own_directory(chosen: Seq<char>, has_home: bool, what: Seq<char>, cause: Seq<char>)
    ensures
        cache_place(Some(chosen), has_home) == Ok::<Place, Fault>(
            (Place { root: Start::Given(chosen), segments: seq!["cache"@] }),
        ),
        cache_place(None, true) == Ok::<Place, Fault>(
            (Place { root: Start::User, segments: seq!["mcp"@, "cache"@] }),
        ),
        cache_place(None, false) is Err,
        unread(what, cause).message() == "reading "@ + what + ": "@ + cause,
        undeleted(what, cause).message() == "removing "@ + what + ": "@ + cause,
{
    assert(Seq::<Seq<char>>::empty().push("cache"@) =~= seq!["cache"@]);
    assert(seq!["mcp"@].push("cache"@) =~= seq!["mcp"@, "cache"@]);
}

/// A cached list is seen with everything that belongs to it.
pub proof fn a_cached_list_is_seen_whole(entry: Entry)
    ensures
        entry@.fetched_at == entry.fetched_at && entry@.url == entry.url@,
        entry@.tools == json_views(entry.tools@),
{
}

/// Whatever number is set is the lifetime, in whatever way it is written.
pub proof fn a_set_number_is_the_lifetime(text: Seq<char>, seconds: u64)
    requires
        read_u64(text) == Some(seconds),
    ensures
        lifetime(Some(text)) == seconds,
{
}

} // verus!
