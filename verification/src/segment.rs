//! Segments: producers of normalized status-line fields from the session
//! input, and the collector that gathers them in configuration order.
//!
//! The directory segment extracts a display name from the workspace's
//! current directory, handling Unix and Windows separators alike.

use vstd::prelude::*;
use vstd::string::StrSliceExecFns;
use vstd::string::StringExecFns;

verus! {

/// Whether `c` is a path separator of either convention.
pub open spec fn is_sep(c: char) -> bool {
    c == '/' || c == '\\'
}

/// `s` with every trailing separator of either kind removed.
pub open spec fn strip_trailing_seps(s: Seq<char>) -> Seq<char>
    decreases s.len(),
{
    if s.len() > 0 && is_sep(s.last()) {
        strip_trailing_seps(s.drop_last())
    } else {
        s
    }
}

/// The piece of `s` after its last occurrence of `sep`; all of `s` when
/// `sep` does not occur.
pub open spec fn after_last_sep(s: Seq<char>, sep: char) -> Seq<char>
    decreases s.len(),
{
    if s.len() == 0 {
        s
    } else if s.last() == sep {
        Seq::empty()
    } else {
        after_last_sep(s.drop_last(), sep).push(s.last())
    }
}

/// The placeholder substituted when the extracted name is empty.
pub open spec fn root_name() -> Seq<char> {
    seq!['r', 'o', 'o', 't']
}

/// The directory name extracted from path `p`: trailing separators are
/// stripped; a bare drive letter becomes its canonical root form; else the
/// candidate after the last separator is taken, Windows-style first, a
/// candidate counting only where a split shortened the path; an empty
/// result becomes the `root` placeholder.
pub open spec fn extract_spec(p: Seq<char>) -> Seq<char> {
    let s = strip_trailing_seps(p);
    if s.len() == 2 && s[1] == ':' {
        s.push('\\')
    } else {
        let win = after_last_sep(s, '\\');
        let unix = after_last_sep(s, '/');
        let r = if win.len() < s.len() {
            win
        } else if unix.len() < s.len() {
            unix
        } else {
            s
        };
        if r.len() == 0 {
            root_name()
        } else {
            r
        }
    }
}

/// Stripping trailing separators is idempotent, and what it returns ends
/// in no separator.
proof fn lemma_strip_fixed(s: Seq<char>)
    ensures
        strip_trailing_seps(strip_trailing_seps(s)) == strip_trailing_seps(s),
        strip_trailing_seps(s).len() > 0 ==> !is_sep(strip_trailing_seps(s).last()),
    decreases s.len(),
{
    if s.len() > 0 && is_sep(s.last()) {
        lemma_strip_fixed(s.drop_last());
    }
}

/// Law: a path ending in one or more separators of either kind extracts
/// the same directory name as the same path with them stripped.
pub proof fn lemma_extract_after_strip(p: Seq<char>)
    requires
        p.len() > 0,
        is_sep(p.last()),
    ensures
        extract_spec(p) == extract_spec(strip_trailing_seps(p)),
{
    lemma_strip_fixed(p);
}

/// The workspace part of the session snapshot.
pub struct Workspace {
    pub current_dir: String,
}

/// The session snapshot handed to every segment. Only the workspace's
/// current directory is read here.
pub struct InputData {
    pub workspace: Workspace,
}

/// Which segment variant produced a result.
#[derive(Clone, Copy, Debug, PartialEq, Eq, Structural)]
pub enum SegmentId {
    Directory,
    Git,
    Model,
    Cost,
}

/// The normalized output of one segment: the main display string, an
/// optional auxiliary string (empty when unused), and extra key-value
/// context not meant for direct display.
pub struct SegmentData {
    pub primary: String,
    pub secondary: String,
    pub metadata: Vec<(String, String)>,
}

/// The directory segment: turns the workspace's current directory into a
/// display name, or passes the full path through when so configured.
pub struct DirectorySegment {
    show_full_path: bool,
}

impl Default for DirectorySegment {
    fn default() -> (r: Self)
        ensures
            !r.spec_show_full_path(),
    {
        Self::new()
    }
}

/// The piece of `s` after the last occurrence of `sep`, or all of `s`.
fn after_last<'a>(s: &'a str, sep: char) -> (r: &'a str)
    ensures
        r@ == after_last_sep(s@, sep),
{
    let n = s.unicode_len();
    let mut i = n;
    proof {
        assert(s@.take(n as int) =~= s@);
        assert(s@.skip(n as int) =~= Seq::<char>::empty());
        assert(after_last_sep(s@, sep) + Seq::<char>::empty() =~= after_last_sep(s@, sep));
    }
    loop
        invariant
            i <= n,
            n == s@.len(),
            after_last_sep(s@, sep) == after_last_sep(s@.take(i as int), sep) + s@.skip(i as int),
        decreases i,
    {
        if i == 0 {
            proof {
                assert(s@.take(0) =~= Seq::<char>::empty());
                assert(s@.skip(0) =~= s@);
                assert(Seq::<char>::empty() + s@ =~= s@);
            }
            return s;
        }
        let c = s.get_char(i - 1);
        proof {
            assert(s@.take(i as int).last() == s@[i as int - 1]);
            assert(s@.take(i as int).drop_last() =~= s@.take(i as int - 1));
        }
        if c == sep {
            let r = s.substring_char(i, n);
            proof {
                assert(r@ =~= s@.skip(i as int));
                assert(Seq::<char>::empty() + s@.skip(i as int) =~= s@.skip(i as int));
            }
            return r;
        }
        proof {
            assert(after_last_sep(s@.take(i as int - 1), sep).push(s@[i as int - 1]) + s@.skip(
                i as int,
            ) =~= after_last_sep(s@.take(i as int - 1), sep) + s@.skip(i as int - 1));
        }
        i = i - 1;
    }
}

impl DirectorySegment {
    /// Whether the segment is configured to show the full path.
    pub closed spec fn spec_show_full_path(&self) -> bool {
        self.show_full_path
    }

    pub fn new() -> (r: Self)
        ensures
            !r.spec_show_full_path(),
    {
        DirectorySegment { show_full_path: false }
    }

    pub fn with_full_path(self, show_full_path: bool) -> (r: Self)
        ensures
            r.spec_show_full_path() == show_full_path,
    {
        DirectorySegment { show_full_path }
    }

    /// Extracts the directory name from `path`, handling Unix and Windows
    /// separators, drive roots, and the empty case.
    pub fn extract_directory_name(path: &str) -> (r: String)
        ensures
            r@ == extract_spec(path@),
    {
        let n = path.unicode_len();
        let mut end = n;
        proof {
            assert(path@.take(n as int) =~= path@);
        }
        loop
            invariant_except_break
                end <= n,
                n == path@.len(),
                strip_trailing_seps(path@) == strip_trailing_seps(path@.take(end as int)),
            ensures
                end <= n,
                n == path@.len(),
                strip_trailing_seps(path@) == path@.take(end as int),
            decreases end,
        {
            if end == 0 {
                proof {
                    assert(path@.take(0) =~= Seq::<char>::empty());
                }
                break;
            }
            let c = path.get_char(end - 1);
            proof {
                assert(path@.take(end as int).last() == path@[end as int - 1]);
            }
            if c != '/' && c != '\\' {
                break;
            }
            proof {
                assert(path@.take(end as int).drop_last() =~= path@.take(end as int - 1));
            }
            end = end - 1;
        }
        let stripped = path.substring_char(0, end);
        proof {
            assert(stripped@ =~= path@.take(end as int));
        }
        if end == 2 {
            let c1 = stripped.get_char(1);
            if c1 == ':' {
                let mut r = stripped.to_owned();
                r.append("\\");
                proof {
                    reveal_strlit("\\");
                    assert(r@ =~= strip_trailing_seps(path@).push('\\'));
                }
                return r;
            }
        }
        let win = after_last(stripped, '\\');
        let unix = after_last(stripped, '/');
        let win_len = win.unicode_len();
        let unix_len = unix.unicode_len();
        let chosen = if win_len < end {
            win
        } else if unix_len < end {
            unix
        } else {
            stripped
        };
        if chosen.unicode_len() == 0 {
            let r = "root".to_owned();
            proof {
                reveal_strlit("root");
                assert(r@ =~= root_name());
            }
            r
        } else {
            chosen.to_owned()
        }
    }

    /// Produces this segment's data from the session input. The directory
    /// segment always applies: the primary string is the extracted name
    /// (or the full path when so configured), the secondary string is
    /// empty, and the metadata carries the untruncated path under the
    /// `full_path` key.
    pub fn collect(&self, input: &InputData) -> (r: Option<SegmentData>)
        ensures
            r is Some,
            r.unwrap().primary@ == (if self.spec_show_full_path() {
                input.workspace.current_dir@
            } else {
                extract_spec(input.workspace.current_dir@)
            }),
            r.unwrap().secondary@ == Seq::<char>::empty(),
            r.unwrap().metadata@.len() == 1,
            (r.unwrap().metadata@[0].0)@ == "full_path"@,
            (r.unwrap().metadata@[0].1)@ == input.workspace.current_dir@,
    {
        let current_dir = &input.workspace.current_dir;
        let dir_name = if self.show_full_path {
            current_dir.clone()
        } else {
            Self::extract_directory_name(current_dir.as_str())
        };
        let mut metadata: Vec<(String, String)> = Vec::new();
        metadata.push(("full_path".to_owned(), current_dir.clone()));
        Some(SegmentData { primary: dir_name, secondary: String::new(), metadata })
    }

    pub fn id(&self) -> (r: SegmentId)
        ensures
            r == SegmentId::Directory,
    {
        SegmentId::Directory
    }
}

/// The closed set of segment variants the collector dispatches over.
pub enum SegmentVariant {
    Directory(DirectorySegment),
}

impl SegmentVariant {
    /// The tag this variant reports.
    pub open spec fn spec_id(&self) -> SegmentId {
        match self {
            SegmentVariant::Directory(_) => SegmentId::Directory,
        }
    }

    /// The primary display string this variant produces from `input`.
    pub open spec fn spec_primary(&self, input: &InputData) -> Seq<char> {
        match self {
            SegmentVariant::Directory(d) => if d.spec_show_full_path() {
                input.workspace.current_dir@
            } else {
                extract_spec(input.workspace.current_dir@)
            },
        }
    }

    /// Invokes the variant's `collect` against the input snapshot.
    pub fn collect(&self, input: &InputData) -> (r: Option<SegmentData>)
        ensures
            r is Some,
            r.unwrap().primary@ == self.spec_primary(input),
            r.unwrap().secondary@ == Seq::<char>::empty(),
            r.unwrap().metadata@.len() == 1,
            (r.unwrap().metadata@[0].0)@ == "full_path"@,
            (r.unwrap().metadata@[0].1)@ == input.workspace.current_dir@,
    {
        match self {
            SegmentVariant::Directory(d) => d.collect(input),
        }
    }

    pub fn id(&self) -> (r: SegmentId)
        ensures
            r == self.spec_id(),
    {
        match self {
            SegmentVariant::Directory(d) => d.id(),
        }
    }
}

/// Invokes each configured segment exactly once, in configured order, and
/// returns the ordered pairs of tag and data for which a result was
/// produced; absent segments are omitted, never an error.
pub fn collect_all_segments(segments: &Vec<SegmentVariant>, input: &InputData) -> (r: Vec<
    (SegmentId, SegmentData),
>)
    ensures
        r@.len() == segments@.len(),
        forall|j: int| 0 <= j < r@.len() ==> r@[j].0 == segments@[j].spec_id(),
        forall|j: int|
            0 <= j < r@.len() ==> (r@[j].1.primary)@ == segments@[j].spec_primary(input),
        forall|j: int| 0 <= j < r@.len() ==> (r@[j].1.secondary)@ == Seq::<char>::empty(),
        forall|j: int|
            0 <= j < r@.len() ==> (r@[j].1.metadata)@.len() == 1 && ((r@[j].1.metadata)@[0].0)@
                == "full_path"@ && ((r@[j].1.metadata)@[0].1)@ == input.workspace.current_dir@,
{
    let mut result: Vec<(SegmentId, SegmentData)> = Vec::new();
    let mut idx: usize = 0;
    while idx < segments.len()
        invariant
            idx <= segments@.len(),
            result@.len() == idx,
            forall|j: int| 0 <= j < idx ==> result@[j].0 == segments@[j].spec_id(),
            forall|j: int|
                0 <= j < idx ==> (result@[j].1.primary)@ == segments@[j].spec_primary(input),
            forall|j: int| 0 <= j < idx ==> (result@[j].1.secondary)@ == Seq::<char>::empty(),
            forall|j: int|
                0 <= j < idx ==> (result@[j].1.metadata)@.len() == 1 && ((
                result@[j].1.metadata)@[0].0)@ == "full_path"@ && ((result@[j].1.metadata)@[0].1)@
                    == input.workspace.current_dir@,
        decreases segments@.len() - idx,
    {
        let seg = &segments[idx];
        let id = seg.id();
        let collected = seg.collect(input);
        match collected {
            Some(data) => {
                result.push((id, data));
            },
            None => {},
        }
        idx = idx + 1;
    }
    result
}

} // verus!
