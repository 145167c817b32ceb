//! Discovery of the state file of a running process: recognising the main
//! process by name, choosing the most recently modified state directory, and
//! summarising the state file found there.
use vstd::prelude::*;

verus! {

/// A candidate process that may be running an opencode subagent.
#[derive(Debug, Clone)]
pub struct PidCandidate {
    /// Process ID
    pub pid: u32,
    /// Path to the state.json file for this PID
    pub state_path: String,
    /// Last modified time of state.json in milliseconds (None if doesn't exist)
    pub last_modified_ms: Option<u64>,
    /// Number of subagents currently tracked in state.json
    pub subagent_count: usize,
}

/// `c` equals the lower-case ASCII character `t`, ignoring ASCII case.
pub open spec fn char_eq_ignore_case(c: char, t: char) -> bool {
    c == t || ('a' <= t && t <= 'z' && c as int == t as int - 32)
}

/// `s` spells `t` (written in lower case), ignoring ASCII case.
pub open spec fn eq_ignore_case(s: Seq<char>, t: Seq<char>) -> bool {
    &&& s.len() == t.len()
    &&& forall|i: int| 0 <= i < s.len() ==> char_eq_ignore_case(#[trigger] s[i], t[i])
}

/// The process name without a trailing `.exe` (in any ASCII case).
pub open spec fn name_without_exe(name: Seq<char>) -> Seq<char> {
    if name.len() >= 4 && eq_ignore_case(name.skip(name.len() - 4), ".exe"@) {
        name.take(name.len() - 4)
    } else {
        name
    }
}

/// A process name is that of the opencode main process when, ignoring ASCII
/// case and an optional `.exe` suffix, it is `opencode`, `opencode-cli` or
/// `opencode_cli`; helper processes and other names that merely contain
/// `opencode` do not count.
pub open spec fn is_main_process_name(name: Seq<char>) -> bool {
    let base = name_without_exe(name);
    ||| eq_ignore_case(base, "opencode"@)
    ||| eq_ignore_case(base, "opencode-cli"@)
    ||| eq_ignore_case(base, "opencode_cli"@)
}

/// Whether the `len` characters of `name` from `start` on spell the
/// lower-case `target`, ignoring ASCII case.
fn range_eq_ignore_case(name: &str, start: usize, len: usize, target: &str) -> (r: bool)
    requires
        start + len <= name@.len() <= usize::MAX,
    ensures
        r == eq_ignore_case(name@.subrange(start as int, start + len), target@),
{
    let tlen = target.unicode_len();
    if tlen != len {
        return false;
    }
    let ghost part = name@.subrange(start as int, start + len);
    let mut i: usize = 0;
    while i < len
        invariant
            i <= len,
            tlen == len == target@.len(),
            start + len <= name@.len() <= usize::MAX,
            part == name@.subrange(start as int, start + len),
            forall|j: int| 0 <= j < i ==> char_eq_ignore_case(#[trigger] part[j], target@[j]),
        decreases len - i,
    {
        let c = name.get_char(start + i);
        let t = target.get_char(i);
        assert(part[i as int] == c);
        let same = c == t || ('a' <= t && t <= 'z' && (c as u32) + 32 == (t as u32));
        if !same {
            return false;
        }
        i = i + 1;
    }
    true
}

/// Whether a process name is that of the opencode main process (not one of
/// its helpers): `opencode`, `opencode-cli` or `opencode_cli`, in any ASCII
/// case, optionally followed by `.exe`.
pub fn is_opencode_main_process(name: &str) -> (r: bool)
    ensures
        r == is_main_process_name(name@),
{
    let n = name.unicode_len();
    let mut base_len = n;
    if n >= 4 && range_eq_ignore_case(name, n - 4, 4, ".exe") {
        base_len = n - 4;
    }
    proof {
        if n >= 4 {
            assert(name@.subrange(n - 4, n as int) =~= name@.skip(n - 4));
        }
        assert(name@.subrange(0, base_len as int) =~= name_without_exe(name@));
    }
    range_eq_ignore_case(name, 0, base_len, "opencode")
        || range_eq_ignore_case(name, 0, base_len, "opencode-cli")
        || range_eq_ignore_case(name, 0, base_len, "opencode_cli")
}

/// Appending `.exe` to a name that does not already end in `.exe` never
/// changes whether it names the main process: a rejected base stays rejected
/// on Windows too.
pub proof fn lemma_exe_suffix_keeps_verdict(base: Seq<char>)
    requires
        !(base.len() >= 4 && eq_ignore_case(base.skip(base.len() - 4), ".exe"@)),
    ensures
        is_main_process_name(base + ".exe"@) == is_main_process_name(base),
{
    reveal_strlit(".exe");
    let name = base + ".exe"@;
    assert(name.skip(name.len() - 4) =~= ".exe"@);
    assert(name.take(name.len() - 4) =~= base);
    assert(name_without_exe(name) == base);
}

/// A recognised name is 8, 12 or 16 characters long (`opencode`, then
/// optionally `-cli` or `_cli`, then optionally `.exe`) and starts with
/// `opencode` in any ASCII case.
pub proof fn lemma_main_process_name_shape(name: Seq<char>)
    requires
        is_main_process_name(name),
    ensures
        name.len() == 8 || name.len() == 12 || name.len() == 16,
        eq_ignore_case(name.take(8), "opencode"@),
{
    reveal_strlit("opencode");
    reveal_strlit("opencode-cli");
    reveal_strlit("opencode_cli");
    reveal_strlit(".exe");
    let base = name_without_exe(name);
    assert(base.len() == 8 || base.len() == 12);
    assert(name.len() == base.len() || name.len() == base.len() + 4);
    assert(name.take(8) =~= base.take(8));
    let lit = if eq_ignore_case(base, "opencode"@) {
        "opencode"@
    } else if eq_ignore_case(base, "opencode-cli"@) {
        "opencode-cli"@
    } else {
        "opencode_cli"@
    };
    assert(eq_ignore_case(base, lit));
    assert(lit.take(8) =~= "opencode"@);
    assert forall|i: int| 0 <= i < 8 implies char_eq_ignore_case(
        #[trigger] base.take(8)[i],
        "opencode"@[i],
    ) by {
        assert(base.take(8)[i] == base[i]);
        assert(lit.take(8)[i] == lit[i]);
    }
}

/// What directory listing tells about one entry of the state root: whether it
/// is a directory, and its modification time in nanoseconds relative to the
/// UNIX epoch (negative before it), when its metadata could be read.
#[derive(Debug, Clone, Copy)]
pub struct StateDirEntry {
    pub is_dir: bool,
    pub modified_nanos: Option<i128>,
}

/// An entry takes part in the search for the latest state directory when it
/// is a directory whose modification time is known.
pub open spec fn is_dated_dir(e: StateDirEntry) -> bool {
    e.is_dir && e.modified_nanos is Some
}

/// `i` is the first of the dated directories with the latest modification
/// time.
pub open spec fn is_first_latest(entries: Seq<StateDirEntry>, i: int) -> bool {
    &&& 0 <= i < entries.len()
    &&& is_dated_dir(entries[i])
    &&& forall|j: int| 0 <= j < i && is_dated_dir(#[trigger] entries[j])
            ==> entries[j].modified_nanos->0 < entries[i].modified_nanos->0
    &&& forall|j: int| i < j < entries.len() && is_dated_dir(#[trigger] entries[j])
            ==> entries[j].modified_nanos->0 <= entries[i].modified_nanos->0
}

/// Choose the most recently modified state directory among the entries of the
/// state root: the first directory with the latest modification time, or
/// `None` when no entry is a directory with a known modification time.
pub fn select_latest_dir(entries: &Vec<StateDirEntry>) -> (r: Option<usize>)
    ensures
        r is None <==> (forall|j: int| 0 <= j < entries@.len() ==> !is_dated_dir(#[trigger] entries@[j])),
        r matches Some(i) ==> is_first_latest(entries@, i as int),
{
    let mut latest: Option<usize> = None;
    let mut i: usize = 0;
    while i < entries.len()
        invariant
            i <= entries@.len(),
            latest is None ==> (forall|j: int| 0 <= j < i ==> !is_dated_dir(#[trigger] entries@[j])),
            latest matches Some(k) ==> {
                &&& k < i
                &&& is_dated_dir(entries@[k as int])
                &&& forall|j: int| 0 <= j < k && is_dated_dir(#[trigger] entries@[j])
                        ==> entries@[j].modified_nanos->0 < entries@[k as int].modified_nanos->0
                &&& forall|j: int| k < j < i && is_dated_dir(#[trigger] entries@[j])
                        ==> entries@[j].modified_nanos->0 <= entries@[k as int].modified_nanos->0
            },
        decreases entries@.len() - i,
    {
        let e = entries[i];
        if e.is_dir {
            if let Some(modified) = e.modified_nanos {
                match latest {
                    Some(k) if entries[k].modified_nanos.unwrap() >= modified => {},
                    _ => {
                        latest = Some(i);
                    },
                }
            }
        }
        i = i + 1;
    }
    latest
}

/// A file's last modification time in milliseconds since the UNIX epoch:
/// 0 for a time before the epoch, otherwise the whole milliseconds narrowed to
/// `u64` by truncation.
pub open spec fn modified_ms_of(nanos: i128) -> u64 {
    if nanos < 0 {
        0
    } else {
        (nanos / 1_000_000) as u64
    }
}

/// The last modification time in milliseconds of a file whose modification
/// time (in nanoseconds relative to the epoch) is `modified_nanos`; `None`
/// when the file's metadata or modification time could not be read.
pub fn last_modified_ms(modified_nanos: Option<i128>) -> (r: Option<u64>)
    ensures
        r == (match modified_nanos {
            Some(n) => Some(modified_ms_of(n)),
            None => None,
        }),
{
    match modified_nanos {
        Some(n) => {
            if n < 0 {
                Some(0)
            } else {
                Some((n / 1_000_000) as u64)
            }
        },
        None => None,
    }
}

/// What `serde_json` makes of `text` and `key`: when `text` parses as one
/// JSON value that has a member `key` holding an object, the number of members
/// of that object; otherwise `None`.
pub uninterp spec fn json_member_object_len_of(text: Seq<char>, key: Seq<char>) -> Option<usize>;

/// Parses `text` with `serde_json::from_str::<serde_json::Value>` and, when it
/// parses, reads `Value::get(key)`, `Value::as_object` and `Map::len`. The
/// contract names the result `json_member_object_len_of(text, key)` and claims
/// nothing else of it.
#[verifier::external_body]
fn json_member_object_len(text: &str, key: &str) -> (r: Option<usize>)
    ensures
        r == json_member_object_len_of(text@, key@),
{
    let value = serde_json::from_str::<serde_json::Value>(text).ok()?;
    value.get(key)?.as_object().map(|members| members.len())
}

/// The member of the state file that holds the subagents.
pub const CHILDREN_KEY: &'static str = "children";

/// The number of subagents for what `serde_json` found in a state file: the
/// number of members of its `children` object, or 0 when there is none.
pub fn subagent_count_from(children_members: Option<usize>) -> (r: usize)
    ensures
        r == (match children_members {
            Some(n) => n,
            None => 0,
        }),
{
    match children_members {
        Some(n) => n,
        None => 0,
    }
}

/// The number of subagents that a state file records, given its contents
/// (`None` when the file could not be read): the number of members of its
/// `children` object, or 0 when the contents are not JSON or have no such
/// object.
pub fn count_subagents(contents: Option<&str>) -> (r: usize)
    ensures
        r == (match contents {
            Some(text) => match json_member_object_len_of(text@, "children"@) {
                Some(n) => n,
                None => 0,
            },
            None => 0,
        }),
{
    match contents {
        Some(text) => subagent_count_from(json_member_object_len(text, CHILDREN_KEY)),
        None => 0,
    }
}

} // verus!
