//! Filters that decide which calls an injector acts on: an operation tag
//! (the method axis) and a shell-style glob over the path presented by the
//! kernel, relative to the mount root.

use vstd::prelude::*;
use vstd::string::StrSliceExecFns;

verus! {

/// Tag for every filesystem operation the dispatcher serves. Configuration
/// records name these tags to pick the calls they apply to.
#[derive(Clone, Copy, PartialEq, Eq, Structural, Debug)]
pub enum Method {
    Lookup,
    Forget,
    GetAttr,
    SetAttr,
    ReadLink,
    MkNod,
    MkDir,
    Unlink,
    RmDir,
    SymLink,
    Rename,
    Link,
    Open,
    Read,
    Write,
    Flush,
    Release,
    Fsync,
    OpenDir,
    ReadDir,
    ReleaseDir,
    FsyncDir,
    StatFs,
    SetXattr,
    GetXattr,
    ListXattr,
    RemoveXattr,
    Access,
    Create,
    GetLk,
    SetLk,
    Bmap,
}

/// The canonical configuration spelling of each method tag.
pub open spec fn spec_method_name(m: Method) -> Seq<char> {
    match m {
        Method::Lookup => "lookup"@,
        Method::Forget => "forget"@,
        Method::GetAttr => "getattr"@,
        Method::SetAttr => "setattr"@,
        Method::ReadLink => "readlink"@,
        Method::MkNod => "mknod"@,
        Method::MkDir => "mkdir"@,
        Method::Unlink => "unlink"@,
        Method::RmDir => "rmdir"@,
        Method::SymLink => "symlink"@,
        Method::Rename => "rename"@,
        Method::Link => "link"@,
        Method::Open => "open"@,
        Method::Read => "read"@,
        Method::Write => "write"@,
        Method::Flush => "flush"@,
        Method::Release => "release"@,
        Method::Fsync => "fsync"@,
        Method::OpenDir => "opendir"@,
        Method::ReadDir => "readdir"@,
        Method::ReleaseDir => "releasedir"@,
        Method::FsyncDir => "fsyncdir"@,
        Method::StatFs => "statfs"@,
        Method::SetXattr => "setxattr"@,
        Method::GetXattr => "getxattr"@,
        Method::ListXattr => "listxattr"@,
        Method::RemoveXattr => "removexattr"@,
        Method::Access => "access"@,
        Method::Create => "create"@,
        Method::GetLk => "getlk"@,
        Method::SetLk => "setlk"@,
        Method::Bmap => "bmap"@,
    }
}

/// What a method tag parses to: the unique method with that spelling,
/// or nothing when the tag is unknown.
pub open spec fn spec_parse_method(s: Seq<char>) -> Option<Method> {
    if s == spec_method_name(Method::Lookup) {
        Some(Method::Lookup)
    } else if s == spec_method_name(Method::Forget) {
        Some(Method::Forget)
    } else if s == spec_method_name(Method::GetAttr) {
        Some(Method::GetAttr)
    } else if s == spec_method_name(Method::SetAttr) {
        Some(Method::SetAttr)
    } else if s == spec_method_name(Method::ReadLink) {
        Some(Method::ReadLink)
    } else if s == spec_method_name(Method::MkNod) {
        Some(Method::MkNod)
    } else if s == spec_method_name(Method::MkDir) {
        Some(Method::MkDir)
    } else if s == spec_method_name(Method::Unlink) {
        Some(Method::Unlink)
    } else if s == spec_method_name(Method::RmDir) {
        Some(Method::RmDir)
    } else if s == spec_method_name(Method::SymLink) {
        Some(Method::SymLink)
    } else if s == spec_method_name(Method::Rename) {
        Some(Method::Rename)
    } else if s == spec_method_name(Method::Link) {
        Some(Method::Link)
    } else if s == spec_method_name(Method::Open) {
        Some(Method::Open)
    } else if s == spec_method_name(Method::Read) {
        Some(Method::Read)
    } else if s == spec_method_name(Method::Write) {
        Some(Method::Write)
    } else if s == spec_method_name(Method::Flush) {
        Some(Method::Flush)
    } else if s == spec_method_name(Method::Release) {
        Some(Method::Release)
    } else if s == spec_method_name(Method::Fsync) {
        Some(Method::Fsync)
    } else if s == spec_method_name(Method::OpenDir) {
        Some(Method::OpenDir)
    } else if s == spec_method_name(Method::ReadDir) {
        Some(Method::ReadDir)
    } else if s == spec_method_name(Method::ReleaseDir) {
        Some(Method::ReleaseDir)
    } else if s == spec_method_name(Method::FsyncDir) {
        Some(Method::FsyncDir)
    } else if s == spec_method_name(Method::StatFs) {
        Some(Method::StatFs)
    } else if s == spec_method_name(Method::SetXattr) {
        Some(Method::SetXattr)
    } else if s == spec_method_name(Method::GetXattr) {
        Some(Method::GetXattr)
    } else if s == spec_method_name(Method::ListXattr) {
        Some(Method::ListXattr)
    } else if s == spec_method_name(Method::RemoveXattr) {
        Some(Method::RemoveXattr)
    } else if s == spec_method_name(Method::Access) {
        Some(Method::Access)
    } else if s == spec_method_name(Method::Create) {
        Some(Method::Create)
    } else if s == spec_method_name(Method::GetLk) {
        Some(Method::GetLk)
    } else if s == spec_method_name(Method::SetLk) {
        Some(Method::SetLk)
    } else if s == spec_method_name(Method::Bmap) {
        Some(Method::Bmap)
    } else {
        None
    }
}

/// Copy the characters of a string into a vector.
pub fn str_chars(s: &str) -> (v: Vec<char>)
    ensures
        v@ == s@,
{
    let n = s.unicode_len();
    let mut v: Vec<char> = Vec::new();
    let mut i: usize = 0;
    while i < n
        invariant
            i <= n,
            n == s@.len(),
            v@ == s@.subrange(0, i as int),
        decreases n - i,
    {
        v.push(s.get_char(i));
        assert(v@ =~= s@.subrange(0, i as int + 1));
        i += 1;
    }
    assert(v@ =~= s@);
    v
}

/// Character-for-character equality of two slices.
pub fn chars_eq(a: &[char], b: &[char]) -> (r: bool)
    ensures
        r == (a@ == b@),
{
    if a.len() != b.len() {
        assert(a@ != b@);
        return false;
    }
    let mut i: usize = 0;
    while i < a.len()
        invariant
            i <= a@.len(),
            a@.len() == b@.len(),
            forall|k: int| 0 <= k < i ==> a@[k] == b@[k],
        decreases a@.len() - i,
    {
        if a[i] != b[i] {
            return false;
        }
        i += 1;
    }
    assert(a@ =~= b@);
    true
}

/// Parse a configuration method tag. Unknown tags parse to nothing, which
/// makes the configuration as a whole invalid.
pub fn parse_method(name: &[char]) -> (r: Option<Method>)
    ensures
        r == spec_parse_method(name@),
{
    proof {
        reveal_strlit("lookup");
        reveal_strlit("forget");
        reveal_strlit("getattr");
        reveal_strlit("setattr");
        reveal_strlit("readlink");
        reveal_strlit("mknod");
        reveal_strlit("mkdir");
        reveal_strlit("unlink");
        reveal_strlit("rmdir");
        reveal_strlit("symlink");
        reveal_strlit("rename");
        reveal_strlit("link");
        reveal_strlit("open");
        reveal_strlit("read");
        reveal_strlit("write");
        reveal_strlit("flush");
        reveal_strlit("release");
        reveal_strlit("fsync");
        reveal_strlit("opendir");
        reveal_strlit("readdir");
        reveal_strlit("releasedir");
        reveal_strlit("fsyncdir");
        reveal_strlit("statfs");
        reveal_strlit("setxattr");
        reveal_strlit("getxattr");
        reveal_strlit("listxattr");
        reveal_strlit("removexattr");
        reveal_strlit("access");
        reveal_strlit("create");
        reveal_strlit("getlk");
        reveal_strlit("setlk");
        reveal_strlit("bmap");
    }
    if chars_eq(name, str_chars("lookup").as_slice()) {
        Some(Method::Lookup)
    } else if chars_eq(name, str_chars("forget").as_slice()) {
        Some(Method::Forget)
    } else if chars_eq(name, str_chars("getattr").as_slice()) {
        Some(Method::GetAttr)
    } else if chars_eq(name, str_chars("setattr").as_slice()) {
        Some(Method::SetAttr)
    } else if chars_eq(name, str_chars("readlink").as_slice()) {
        Some(Method::ReadLink)
    } else if chars_eq(name, str_chars("mknod").as_slice()) {
        Some(Method::MkNod)
    } else if chars_eq(name, str_chars("mkdir").as_slice()) {
        Some(Method::MkDir)
    } else if chars_eq(name, str_chars("unlink").as_slice()) {
        Some(Method::Unlink)
    } else if chars_eq(name, str_chars("rmdir").as_slice()) {
        Some(Method::RmDir)
    } else if chars_eq(name, str_chars("symlink").as_slice()) {
        Some(Method::SymLink)
    } else if chars_eq(name, str_chars("rename").as_slice()) {
        Some(Method::Rename)
    } else if chars_eq(name, str_chars("link").as_slice()) {
        Some(Method::Link)
    } else if chars_eq(name, str_chars("open").as_slice()) {
        Some(Method::Open)
    } else if chars_eq(name, str_chars("read").as_slice()) {
        Some(Method::Read)
    } else if chars_eq(name, str_chars("write").as_slice()) {
        Some(Method::Write)
    } else if chars_eq(name, str_chars("flush").as_slice()) {
        Some(Method::Flush)
    } else if chars_eq(name, str_chars("release").as_slice()) {
        Some(Method::Release)
    } else if chars_eq(name, str_chars("fsync").as_slice()) {
        Some(Method::Fsync)
    } else if chars_eq(name, str_chars("opendir").as_slice()) {
        Some(Method::OpenDir)
    } else if chars_eq(name, str_chars("readdir").as_slice()) {
        Some(Method::ReadDir)
    } else if chars_eq(name, str_chars("releasedir").as_slice()) {
        Some(Method::ReleaseDir)
    } else if chars_eq(name, str_chars("fsyncdir").as_slice()) {
        Some(Method::FsyncDir)
    } else if chars_eq(name, str_chars("statfs").as_slice()) {
        Some(Method::StatFs)
    } else if chars_eq(name, str_chars("setxattr").as_slice()) {
        Some(Method::SetXattr)
    } else if chars_eq(name, str_chars("getxattr").as_slice()) {
        Some(Method::GetXattr)
    } else if chars_eq(name, str_chars("listxattr").as_slice()) {
        Some(Method::ListXattr)
    } else if chars_eq(name, str_chars("removexattr").as_slice()) {
        Some(Method::RemoveXattr)
    } else if chars_eq(name, str_chars("access").as_slice()) {
        Some(Method::Access)
    } else if chars_eq(name, str_chars("create").as_slice()) {
        Some(Method::Create)
    } else if chars_eq(name, str_chars("getlk").as_slice()) {
        Some(Method::GetLk)
    } else if chars_eq(name, str_chars("setlk").as_slice()) {
        Some(Method::SetLk)
    } else if chars_eq(name, str_chars("bmap").as_slice()) {
        Some(Method::Bmap)
    } else {
        None
    }
}

/// Shell-style glob matching: `*` matches any run of characters, `?` matches
/// exactly one, and every other pattern character matches itself.
pub open spec fn glob_matches(p: Seq<char>, t: Seq<char>) -> bool
    decreases p.len() + t.len(),
{
    if p.len() == 0 {
        t.len() == 0
    } else if p[0] == '*' {
        glob_matches(p.drop_first(), t) || (t.len() > 0 && glob_matches(p, t.drop_first()))
    } else if t.len() == 0 {
        false
    } else if p[0] == '?' {
        glob_matches(p.drop_first(), t.drop_first())
    } else {
        p[0] == t[0] && glob_matches(p.drop_first(), t.drop_first())
    }
}

fn glob_match_at(p: &[char], t: &[char], i: usize, j: usize) -> (r: bool)
    requires
        i <= p@.len(),
        j <= t@.len(),
    ensures
        r == glob_matches(p@.skip(i as int), t@.skip(j as int)),
    decreases p@.len() - i + t@.len() - j,
{
    let ghost ps = p@.skip(i as int);
    let ghost ts = t@.skip(j as int);
    if i == p.len() {
        j == t.len()
    } else if p[i] == '*' {
        assert(ps.drop_first() =~= p@.skip(i as int + 1));
        if glob_match_at(p, t, i + 1, j) {
            true
        } else if j < t.len() {
            assert(ts.drop_first() =~= t@.skip(j as int + 1));
            glob_match_at(p, t, i, j + 1)
        } else {
            false
        }
    } else if j == t.len() {
        false
    } else if p[i] == '?' || p[i] == t[j] {
        assert(ps.drop_first() =~= p@.skip(i as int + 1));
        assert(ts.drop_first() =~= t@.skip(j as int + 1));
        glob_match_at(p, t, i + 1, j + 1)
    } else {
        false
    }
}

/// Decide whether `pattern` matches the whole of `text`.
pub fn glob_match(pattern: &[char], text: &[char]) -> (r: bool)
    ensures
        r == glob_matches(pattern@, text@),
{
    let r = glob_match_at(pattern, text, 0, 0);
    assert(pattern@.skip(0) =~= pattern@);
    assert(text@.skip(0) =~= text@);
    r
}

/// Set membership on the method axis of a filter.
pub fn method_in(methods: &Vec<Method>, m: Method) -> (r: bool)
    ensures
        r == methods@.contains(m),
{
    let mut i: usize = 0;
    while i < methods.len()
        invariant
            i <= methods@.len(),
            forall|k: int| 0 <= k < i ==> methods@[k] != m,
        decreases methods@.len() - i,
    {
        if methods[i] == m {
            return true;
        }
        i += 1;
    }
    false
}

/// A filter selects a call when the method is in its set and the path
/// matches its glob.
pub open spec fn spec_selects(
    methods: Seq<Method>,
    pattern: Seq<char>,
    m: Method,
    path: Seq<char>,
) -> bool {
    methods.contains(m) && glob_matches(pattern, path)
}

/// Decide whether a filter with the given method set and path glob selects
/// a call.
pub fn selects(methods: &Vec<Method>, pattern: &Vec<char>, m: Method, path: &[char]) -> (r: bool)
    ensures
        r == spec_selects(methods@, pattern@, m, path@),
{
    method_in(methods, m) && glob_match(pattern.as_slice(), path)
}

} // verus!
