use vstd::prelude::*;

verus! {

/// What the walk does with one entry.
#[derive(Debug, Clone, Copy, PartialEq, Eq, Structural)]
pub enum ScanAction {
    /// A directory whose name is ignored: neither it nor anything beneath it
    /// is visited.
    Prune,
    /// A regular file whose extension is searched for.
    Found,
    /// Anything else: a directory is descended into, other entries are passed.
    Pass,
}

/// The views of a list of strings.
pub open spec fn views(v: Seq<String>) -> Seq<Seq<char>> {
    v.map_values(|x: String| x@)
}

/// The string without the dots it starts with.
pub open spec fn strip_dots(s: Seq<char>) -> Seq<char>
    decreases s.len(),
{
    if s.len() > 0 && s[0] == '.' {
        strip_dots(s.drop_first())
    } else {
        s
    }
}

/// The index of the last `.` in `n`, or -1 where it has none.
pub open spec fn last_dot(n: Seq<char>) -> int
    decreases n.len(),
{
    if n.len() == 0 {
        -1
    } else if n.last() == '.' {
        n.len() - 1
    } else {
        last_dot(n.drop_last())
    }
}

/// The extension of a file name: what follows its last `.`, where that `.` is
/// not the name's first character.
pub open spec fn extension_of(n: Seq<char>) -> Option<Seq<char>> {
    if last_dot(n) > 0 {
        Some(n.subrange(last_dot(n) + 1, n.len() as int))
    } else {
        None
    }
}

/// Whether a file name has one of the extensions, each taken without its
/// leading dots.
pub open spec fn name_matches(exts: Seq<Seq<char>>, name: Seq<char>) -> bool {
    extension_of(name) is Some && exists|i: int|
        0 <= i < exts.len() && #[trigger] strip_dots(exts[i]) == extension_of(name)->Some_0
}

/// Whether a name is one of the ignored names.
pub open spec fn name_ignored(ignored: Seq<Seq<char>>, name: Seq<char>) -> bool {
    ignored.contains(name)
}

/// The action for an entry with the given name.
pub open spec fn action_spec(
    exts: Seq<Seq<char>>,
    ignored: Seq<Seq<char>>,
    name: Seq<char>,
    is_file: bool,
) -> ScanAction {
    if !is_file && name_ignored(ignored, name) {
        ScanAction::Prune
    } else if is_file && name_matches(exts, name) {
        ScanAction::Found
    } else {
        ScanAction::Pass
    }
}

/// The line of dashes that closes a printed file.
pub open spec fn separator() -> Seq<char> {
    "# --------------------------------------------------"@
}

/// A matched file as printed: a header naming it, its contents, a separator.
pub open spec fn contents_block_spec(path: Seq<char>, contents: Seq<char>) -> Seq<char> {
    "# File: "@ + path + "\n"@ + contents + "\n"@ + separator() + "\n"@
}

proof fn lemma_strip_dots_step(s: Seq<char>, i: int)
    requires
        0 <= i < s.len(),
        s[i] == '.',
    ensures
        strip_dots(s.subrange(i, s.len() as int)) == strip_dots(s.subrange(i + 1, s.len() as int)),
{
    assert(s.subrange(i, s.len() as int).drop_first() =~= s.subrange(i + 1, s.len() as int));
}

/// The string without the dots it starts with.
pub fn strip_leading_dots(s: &str) -> (r: String)
    ensures
        r@ == strip_dots(s@),
{
    let n = s.unicode_len();
    let mut i: usize = 0;
    assert(s@.subrange(0, n as int) =~= s@);
    while i < n && s.get_char(i) == '.'
        invariant
            0 <= i <= n,
            n == s@.len(),
            strip_dots(s@) == strip_dots(s@.subrange(i as int, n as int)),
        decreases n - i,
    {
        proof {
            lemma_strip_dots_step(s@, i as int);
        }
        i = i + 1;
    }
    let rest = s.substring_char(i, n);
    if i < n {
        assert(s@.subrange(i as int, n as int)[0] != '.');
    }
    String::from_str(rest)
}

proof fn lemma_last_dot_prefix(n: Seq<char>, i: int)
    requires
        0 < i <= n.len(),
        n[i - 1] != '.',
    ensures
        last_dot(n.subrange(0, i)) == last_dot(n.subrange(0, i - 1)),
{
    assert(n.subrange(0, i).drop_last() =~= n.subrange(0, i - 1));
}

proof fn lemma_last_dot_range(n: Seq<char>)
    ensures
        -1 <= last_dot(n) < n.len(),
        last_dot(n) >= 0 ==> n[last_dot(n)] == '.',
    decreases n.len(),
{
    if n.len() > 0 && n.last() != '.' {
        lemma_last_dot_range(n.drop_last());
    }
}

/// The extension of a file name, as `std::path::Path::extension` gives it:
/// what follows the last `.`, unless that `.` starts the name or there is
/// none.
pub fn file_extension(name: &str) -> (r: Option<String>)
    ensures
        match r {
            Some(e) => extension_of(name@) == Some(e@),
            None => extension_of(name@) is None,
        },
{
    let n = name.unicode_len();
    let mut i: usize = n;
    assert(name@.subrange(0, n as int) =~= name@);
    while i > 0 && name.get_char(i - 1) != '.'
        invariant
            0 <= i <= n,
            n == name@.len(),
            last_dot(name@) == last_dot(name@.subrange(0, i as int)),
        decreases i,
    {
        proof {
            lemma_last_dot_prefix(name@, i as int);
        }
        i = i - 1;
    }
    proof {
        if i > 0 {
            let p = name@.subrange(0, i as int);
            assert(p.last() == '.');
        } else {
            assert(name@.subrange(0, 0) =~= Seq::<char>::empty());
        }
    }
    if i > 1 {
        Some(String::from_str(name.substring_char(i, n)))
    } else {
        None
    }
}

/// What to look for during a walk.
pub struct ScanConfig {
    /// Extensions searched for, each with or without leading dots.
    pub extensions: Vec<String>,
    /// Names of directories that are pruned with everything beneath them.
    pub ignored_dirs: Vec<String>,
    /// Whether a matched file's contents are printed.
    pub print_contents: bool,
}

impl ScanConfig {
    /// Whether a directory with this name is pruned: an exact match with one
    /// of the ignored names.
    pub fn is_pruned(&self, name: &str) -> (r: bool)
        ensures
            r == name_ignored(views(self.ignored_dirs@), name@),
    {
        let ghost ig = views(self.ignored_dirs@);
        let target = String::from_str(name);
        let mut i: usize = 0;
        while i < self.ignored_dirs.len()
            invariant
                0 <= i <= self.ignored_dirs.len(),
                ig == views(self.ignored_dirs@),
                target@ == name@,
                forall|j: int| 0 <= j < i ==> ig[j] != name@,
            decreases self.ignored_dirs.len() - i,
        {
            if self.ignored_dirs[i].eq(&target) {
                assert(ig[i as int] == name@);
                return true;
            }
            i = i + 1;
        }
        proof {
            if ig.contains(name@) {
                let j = choose|j: int| 0 <= j < ig.len() && ig[j] == name@;
                assert(ig[j] != name@);
            }
        }
        false
    }

    /// Whether a file with this name has one of the searched extensions.
    pub fn matches_extension(&self, file_name: &str) -> (r: bool)
        ensures
            r == name_matches(views(self.extensions@), file_name@),
    {
        let ghost ex = views(self.extensions@);
        let ext = match file_extension(file_name) {
            Some(e) => e,
            None => {
                return false;
            },
        };
        let mut i: usize = 0;
        while i < self.extensions.len()
            invariant
                0 <= i <= self.extensions.len(),
                ex == views(self.extensions@),
                extension_of(file_name@) == Some(ext@),
                forall|j: int| 0 <= j < i ==> strip_dots(#[trigger] ex[j]) != ext@,
            decreases self.extensions.len() - i,
        {
            let wanted = strip_leading_dots(self.extensions[i].as_str());
            if wanted.eq(&ext) {
                assert(strip_dots(ex[i as int]) == ext@);
                return true;
            }
            i = i + 1;
        }
        false
    }

    /// What the walk does with an entry of this name: prune it where it is a
    /// directory whose name is ignored, report it where it is a file with a
    /// searched extension, pass it otherwise.
    pub fn decide(&self, name: &str, is_file: bool) -> (r: ScanAction)
        ensures
            r == action_spec(views(self.extensions@), views(self.ignored_dirs@), name@, is_file),
    {
        if !is_file && self.is_pruned(name) {
            ScanAction::Prune
        } else if is_file && self.matches_extension(name) {
            ScanAction::Found
        } else {
            ScanAction::Pass
        }
    }
}

/// The text printed for a matched file: a header line with its path, its
/// contents, and a separator line.
pub fn contents_block(path: &str, contents: &str) -> (r: String)
    ensures
        r@ == contents_block_spec(path@, contents@),
{
    let mut out = String::from_str("# File: ");
    out.append(path);
    out.append("\n");
    out.append(contents);
    out.append("\n");
    out.append("# --------------------------------------------------");
    out.append("\n");
    out
}

/// A directory whose name is ignored is pruned, and a file is judged by its
/// extension alone, whatever the ignored set holds; adding a name to the
/// ignored set changes the action for directories of that name alone.
pub proof fn lemma_ignoring_a_name_prunes_it(
    exts: Seq<Seq<char>>,
    ignored: Seq<Seq<char>>,
    added: Seq<char>,
    name: Seq<char>,
    is_file: bool,
)
    ensures
        action_spec(exts, ignored.push(added), added, false) == ScanAction::Prune,
        is_file ==> action_spec(exts, ignored, name, true) == (if name_matches(exts, name) {
            ScanAction::Found
        } else {
            ScanAction::Pass
        }),
        name != added ==> action_spec(exts, ignored.push(added), name, is_file) == action_spec(
            exts,
            ignored,
            name,
            is_file,
        ),
{
    assert(ignored.push(added)[ignored.len() as int] == added);
    if name != added {
        assert(ignored.push(added).contains(name) ==> ignored.contains(name)) by {
            if ignored.push(added).contains(name) {
                let j = choose|j: int| 0 <= j < ignored.len() + 1 && ignored.push(added)[j] == name;
                assert(ignored[j] == name);
            }
        }
        assert(ignored.contains(name) ==> ignored.push(added).contains(name)) by {
            if ignored.contains(name) {
                let j = choose|j: int| 0 <= j < ignored.len() && ignored[j] == name;
                assert(ignored.push(added)[j] == name);
            }
        }
    }
}

/// A searched extension written with a leading `.` matches the same file
/// names as written without it.
pub proof fn lemma_leading_dot_is_ignored(exts: Seq<Seq<char>>, i: int, name: Seq<char>)
    requires
        0 <= i < exts.len(),
    ensures
        name_matches(exts.update(i, seq!['.'] + exts[i]), name) == name_matches(exts, name),
{
    let dotted = seq!['.'] + exts[i];
    assert(dotted.drop_first() =~= exts[i]);
    assert(strip_dots(dotted) == strip_dots(exts[i]));
    let other = exts.update(i, dotted);
    assert forall|j: int| 0 <= j < exts.len() implies strip_dots(#[trigger] other[j]) == strip_dots(
        exts[j],
    ) by {}
    if name_matches(other, name) {
        let j = choose|j: int|
            0 <= j < other.len() && #[trigger] strip_dots(other[j]) == extension_of(name)->Some_0;
        assert(strip_dots(exts[j]) == extension_of(name)->Some_0);
    }
    if name_matches(exts, name) {
        let j = choose|j: int|
            0 <= j < exts.len() && #[trigger] strip_dots(exts[j]) == extension_of(name)->Some_0;
        assert(strip_dots(other[j]) == extension_of(name)->Some_0);
    }
}

} // verus!
