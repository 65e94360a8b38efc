use crate::error::FinderError;
use crate::github::join_slash;
use crate::scan::views;
use vstd::prelude::*;

verus! {

#[verifier::external_type_specification]
#[verifier::external_body]
#[verifier::reject_recursive_types(T)]
pub struct ExCursor<T>(std::io::Cursor<T>);

#[verifier::external_type_specification]
#[verifier::external_body]
#[verifier::reject_recursive_types(R)]
pub struct ExZipArchive<R>(zip::ZipArchive<R>);

#[verifier::external_type_specification]
#[verifier::external_body]
pub struct ExZipError(zip::result::ZipError);

/// A zip archive read from bytes in memory.
pub type MemoryArchive = zip::ZipArchive<std::io::Cursor<Vec<u8>>>;

/// What the zip format makes of the bytes: `None` where they hold no archive
/// that opens, else one item per entry, holding its name and contents, or
/// `None` where that entry does not read to its end.
pub uninterp spec fn zip_archive_of(bytes: Seq<u8>) -> Option<Seq<Option<(Seq<char>, Seq<u8>)>>>;

/// The entries of an opened archive, as `zip_archive_of` gives them.
pub uninterp spec fn archive_entries(a: MemoryArchive) -> Seq<Option<(Seq<char>, Seq<u8>)>>;

/// Relies on `zip::ZipArchive::new`: it reads the archive's central directory
/// from the bytes, and fails where they hold no archive that opens.
#[verifier::external_body]
fn open_archive(bytes: Vec<u8>) -> (r: Result<MemoryArchive, zip::result::ZipError>)
    ensures
        r is Ok <==> zip_archive_of(bytes@) is Some,
        r is Ok ==> zip_archive_of(bytes@) == Some(archive_entries(r->Ok_0)),
{
    zip::ZipArchive::new(std::io::Cursor::new(bytes))
}

/// Relies on `zip::ZipArchive::len`: the number of entries.
#[verifier::external_body]
fn entry_count(a: &MemoryArchive) -> (r: usize)
    ensures
        r == archive_entries(*a).len(),
{
    a.len()
}

/// Relies on `zip::ZipArchive::by_index`, `ZipFile::name` and reading the
/// `ZipFile` to its end: the name and the decompressed contents of entry `i`.
/// Each read seeks to the entry's own offset, so reading leaves the entries as
/// they were.
#[verifier::external_body]
fn read_entry(a: &mut MemoryArchive, i: usize) -> (r: Result<
    (String, Vec<u8>),
    zip::result::ZipError,
>)
    requires
        i < archive_entries(*old(a)).len(),
    ensures
        archive_entries(*final(a)) == archive_entries(*old(a)),
        r is Ok <==> archive_entries(*old(a))[i as int] is Some,
        r is Ok ==> archive_entries(*old(a))[i as int] == Some((r->Ok_0.0@, r->Ok_0.1@)),
{
    let mut f = a.by_index(i)?;
    let name = f.name()?.into_owned();
    let mut data: Vec<u8> = Vec::new();
    std::io::Read::read_to_end(&mut f, &mut data)?;
    Ok((name, data))
}

/// One entry of an archive: its name, as stored, and its contents.
pub struct ArchiveEntry {
    pub name: String,
    pub data: Vec<u8>,
}

impl View for ArchiveEntry {
    type V = (Seq<char>, Seq<u8>);

    open spec fn view(&self) -> (Seq<char>, Seq<u8>) {
        (self.name@, self.data@)
    }
}

pub open spec fn entry_views(v: Seq<ArchiveEntry>) -> Seq<(Seq<char>, Seq<u8>)> {
    v.map_values(|e: ArchiveEntry| e@)
}

/// Whether the bytes hold a zip archive that opens and whose every entry reads
/// to its end.
pub open spec fn zip_readable(bytes: Seq<u8>) -> bool {
    &&& zip_archive_of(bytes) is Some
    &&& forall|i: int|
        0 <= i < zip_archive_of(bytes)->Some_0.len() ==> (#[trigger] zip_archive_of(
            bytes,
        )->Some_0[i]) is Some
}

/// The entries, name and contents, of readable zip bytes.
pub open spec fn zip_entries_of(bytes: Seq<u8>) -> Seq<(Seq<char>, Seq<u8>)> {
    zip_archive_of(bytes)->Some_0.map_values(|e: Option<(Seq<char>, Seq<u8>)>| e->Some_0)
}

/// Reads every entry of a zip archive held in memory, in the archive's order.
/// It succeeds exactly on bytes that hold a readable archive; any other bytes
/// are an archive error.
pub fn read_archive(bytes: Vec<u8>) -> (r: Result<Vec<ArchiveEntry>, FinderError>)
    ensures
        r is Ok <==> zip_readable(bytes@),
        r is Ok ==> entry_views(r->Ok_0@) == zip_entries_of(bytes@),
        r is Err ==> r->Err_0 == FinderError::Archive,
{
    let ghost b = bytes@;
    let mut a = match open_archive(bytes) {
        Ok(a) => a,
        Err(_) => {
            return Err(FinderError::Archive);
        },
    };
    let ghost all = archive_entries(a);
    let n = entry_count(&a);
    let mut out: Vec<ArchiveEntry> = Vec::new();
    let mut i: usize = 0;
    while i < n
        invariant
            0 <= i <= n,
            n == all.len(),
            archive_entries(a) == all,
            zip_archive_of(b) == Some(all),
            b == bytes@,
            forall|j: int| 0 <= j < i ==> (#[trigger] all[j]) is Some,
            entry_views(out@) == all.subrange(0, i as int).map_values(
                |e: Option<(Seq<char>, Seq<u8>)>| e->Some_0,
            ),
        decreases n - i,
    {
        let ghost before = out@;
        match read_entry(&mut a, i) {
            Ok(pair) => {
                let (name, data) = pair;
                out.push(ArchiveEntry { name, data });
                assert(entry_views(out@) =~= entry_views(before).push(all[i as int]->Some_0));
            },
            Err(_) => {
                assert(zip_archive_of(b)->Some_0[i as int] is None);
                assert(!zip_readable(b));
                return Err(FinderError::Archive);
            },
        }
        assert(entry_views(out@) =~= all.subrange(0, i + 1).map_values(
            |e: Option<(Seq<char>, Seq<u8>)>| e->Some_0,
        ));
        i = i + 1;
    }
    assert(all.subrange(0, n as int) =~= all);
    Ok(out)
}

/// The pieces of `s` between its `/` characters, empty pieces included.
pub open spec fn split_slash(s: Seq<char>) -> Seq<Seq<char>>
    decreases s.len(),
{
    if s.len() == 0 {
        seq![Seq::empty()]
    } else {
        let r = split_slash(s.drop_last());
        if s.last() == '/' {
            r.push(Seq::empty())
        } else {
            r.update(r.len() - 1, r.last().push(s.last()))
        }
    }
}

/// The pieces that name something: neither empty nor `.`.
pub open spec fn kept(parts: Seq<Seq<char>>) -> Seq<Seq<char>>
    decreases parts.len(),
{
    if parts.len() == 0 {
        Seq::empty()
    } else {
        let r = kept(parts.drop_last());
        if parts.last().len() == 0 || parts.last() == "."@ {
            r
        } else {
            r.push(parts.last())
        }
    }
}

/// Where an entry goes under the target folder, as path components, and
/// whether it is a directory; `None` for an entry that would climb out of the
/// target folder through a `..` component, or that names nothing.
pub open spec fn entry_target_spec(name: Seq<char>) -> Option<(Seq<Seq<char>>, bool)> {
    let parts = split_slash(name);
    if parts.contains(".."@) || kept(parts).len() == 0 {
        None
    } else {
        Some((kept(parts), name.len() > 0 && name.last() == '/'))
    }
}

/// Where an archive entry is written.
pub struct EntryTarget {
    /// Path components under the target folder, none of them empty, `.` or `..`.
    pub components: Vec<String>,
    /// Whether the entry is a directory, which its name ends with `/` to say.
    pub is_dir: bool,
}

impl View for EntryTarget {
    type V = (Seq<Seq<char>>, bool);

    open spec fn view(&self) -> (Seq<Seq<char>>, bool) {
        (views(self.components@), self.is_dir)
    }
}

proof fn lemma_split_nonempty(s: Seq<char>)
    ensures
        split_slash(s).len() >= 1,
    decreases s.len(),
{
    if s.len() > 0 {
        lemma_split_nonempty(s.drop_last());
    }
}

/// The pieces of `s` between its `/` characters.
fn split_name(s: &str) -> (r: Vec<String>)
    ensures
        views(r@) == split_slash(s@),
{
    let n = s.unicode_len();
    let mut parts: Vec<String> = Vec::new();
    let mut start: usize = 0;
    let mut i: usize = 0;
    assert(s@.subrange(0, 0) =~= Seq::<char>::empty());
    assert(views(parts@).push(s@.subrange(0, 0)) =~= seq![Seq::<char>::empty()]);
    while i < n
        invariant
            0 <= start <= i <= n,
            n == s@.len(),
            views(parts@).push(s@.subrange(start as int, i as int)) == split_slash(
                s@.subrange(0, i as int),
            ),
        decreases n - i,
    {
        let c = s.get_char(i);
        let ghost pre = s@.subrange(0, i as int);
        assert(s@.subrange(0, i + 1).drop_last() =~= pre);
        let ghost old_parts = parts@;
        if c == '/' {
            let piece = String::from_str(s.substring_char(start, i));
            parts.push(piece);
            assert(views(parts@) =~= views(old_parts).push(s@.subrange(start as int, i as int)));
            assert(s@.subrange(i + 1, i + 1) =~= Seq::<char>::empty());
            assert(views(parts@).push(s@.subrange(i + 1, i + 1)) == split_slash(pre).push(
                Seq::empty(),
            ));
            start = i + 1;
        } else {
            assert(s@.subrange(start as int, i as int).push(c) =~= s@.subrange(
                start as int,
                i + 1,
            ));
            assert(views(parts@).push(s@.subrange(start as int, i + 1)) =~= split_slash(
                pre,
            ).update(split_slash(pre).len() - 1, split_slash(pre).last().push(c)));
        }
        i = i + 1;
    }
    let last = String::from_str(s.substring_char(start, n));
    parts.push(last);
    assert(s@.subrange(0, n as int) =~= s@);
    assert(views(parts@) =~= split_slash(s@));
    parts
}

/// Where an archive entry with this name is written under the target folder,
/// or `None` where it would escape it or names nothing. Empty and `.`
/// components are dropped.
pub fn entry_target(name: &str) -> (r: Option<EntryTarget>)
    ensures
        match r {
            Some(t) => entry_target_spec(name@) == Some(t@),
            None => entry_target_spec(name@) is None,
        },
{
    let parts = split_name(name);
    let ghost pv = views(parts@);
    let dot = String::from_str(".");
    let dotdot = String::from_str("..");
    let mut comps: Vec<String> = Vec::new();
    let mut i: usize = 0;
    while i < parts.len()
        invariant
            0 <= i <= parts.len(),
            pv == views(parts@),
            pv == split_slash(name@),
            dot@ == "."@,
            dotdot@ == ".."@,
            views(comps@) == kept(pv.subrange(0, i as int)),
            forall|j: int| 0 <= j < i ==> pv[j] != ".."@,
        decreases parts.len() - i,
    {
        assert(pv.subrange(0, i + 1).drop_last() =~= pv.subrange(0, i as int));
        if parts[i].eq(&dotdot) {
            assert(pv[i as int] == ".."@);
            assert(pv.contains(".."@));
            return None;
        }
        let empty = parts[i].as_str().unicode_len() == 0;
        if !empty && !parts[i].eq(&dot) {
            comps.push(parts[i].clone());
            assert(views(comps@) =~= kept(pv.subrange(0, i as int)).push(pv[i as int]));
        }
        i = i + 1;
    }
    assert(pv.subrange(0, parts.len() as int) =~= pv);
    proof {
        if pv.contains(".."@) {
            let j = choose|j: int| 0 <= j < pv.len() && pv[j] == ".."@;
            assert(pv[j] != ".."@);
        }
    }
    if comps.len() == 0 {
        return None;
    }
    let n = name.unicode_len();
    let is_dir = n > 0 && name.get_char(n - 1) == '/';
    Some(EntryTarget { components: comps, is_dir })
}

/// One step of an extraction: the path to create and which entry it comes
/// from.
pub struct ExtractStep {
    /// Path components under the target folder.
    pub components: Vec<String>,
    /// Whether a directory is created; otherwise the entry's contents are
    /// written to a file there.
    pub is_dir: bool,
    /// The position of the entry in the archive.
    pub index: usize,
}

impl View for ExtractStep {
    type V = (Seq<Seq<char>>, bool, int);

    open spec fn view(&self) -> (Seq<Seq<char>>, bool, int) {
        (views(self.components@), self.is_dir, self.index as int)
    }
}

pub open spec fn step_views(v: Seq<ExtractStep>) -> Seq<(Seq<Seq<char>>, bool, int)> {
    v.map_values(|s: ExtractStep| s@)
}

/// The steps that extract entries with these names: one for each entry that
/// stays inside the target folder, in the archive's order.
pub open spec fn plan_spec(names: Seq<Seq<char>>) -> Seq<(Seq<Seq<char>>, bool, int)>
    decreases names.len(),
{
    if names.len() == 0 {
        Seq::empty()
    } else {
        let r = plan_spec(names.drop_last());
        match entry_target_spec(names.last()) {
            Some(t) => r.push((t.0, t.1, names.len() - 1)),
            None => r,
        }
    }
}

pub open spec fn entry_names(v: Seq<ArchiveEntry>) -> Seq<Seq<char>> {
    v.map_values(|e: ArchiveEntry| e.name@)
}

/// The steps that extract the entries under a target folder. Entries that
/// would escape it are left out.
pub fn extraction_plan(entries: &Vec<ArchiveEntry>) -> (r: Vec<ExtractStep>)
    ensures
        step_views(r@) == plan_spec(entry_names(entries@)),
{
    let ghost names = entry_names(entries@);
    let mut steps: Vec<ExtractStep> = Vec::new();
    let mut i: usize = 0;
    while i < entries.len()
        invariant
            0 <= i <= entries.len(),
            names == entry_names(entries@),
            step_views(steps@) == plan_spec(names.subrange(0, i as int)),
        decreases entries.len() - i,
    {
        assert(names.subrange(0, i + 1).drop_last() =~= names.subrange(0, i as int));
        match entry_target(entries[i].name.as_str()) {
            Some(t) => {
                steps.push(ExtractStep { components: t.components, is_dir: t.is_dir, index: i });
                assert(step_views(steps@) =~= plan_spec(names.subrange(0, i as int)).push(
                    (t@.0, t@.1, i as int),
                ));
            },
            None => {},
        }
        i = i + 1;
    }
    assert(names.subrange(0, entries.len() as int) =~= names);
    steps
}

/// A path component that an entry name can carry unchanged: not empty, no
/// `/`, neither `.` nor `..`.
pub open spec fn safe_component(c: Seq<char>) -> bool {
    c.len() > 0 && !c.contains('/') && c != "."@ && c != ".."@
}

proof fn lemma_split_append_plain(x: Seq<char>, y: Seq<char>)
    requires
        !y.contains('/'),
    ensures
        split_slash(x + y) == split_slash(x).update(
            split_slash(x).len() - 1,
            split_slash(x).last() + y,
        ),
    decreases y.len(),
{
    lemma_split_nonempty(x);
    let sx = split_slash(x);
    if y.len() == 0 {
        assert(x + y =~= x);
        assert(sx.last() + y =~= sx.last());
        assert(sx.update(sx.len() - 1, sx.last() + y) =~= sx);
    } else {
        let y2 = y.drop_last();
        assert(!y2.contains('/')) by {
            if y2.contains('/') {
                let j = choose|j: int| 0 <= j < y2.len() && y2[j] == '/';
                assert(y[j] == '/');
            }
        }
        assert(y.last() != '/') by {
            if y.last() == '/' {
                assert(y[y.len() - 1] == '/');
            }
        }
        lemma_split_append_plain(x, y2);
        assert((x + y).drop_last() =~= x + y2);
        assert((sx.last() + y2).push(y.last()) =~= sx.last() + y);
        let r = split_slash(x + y2);
        assert(r.update(r.len() - 1, r.last().push(y.last())) =~= sx.update(
            sx.len() - 1,
            sx.last() + y,
        ));
    }
}

proof fn lemma_join_last(cs: Seq<Seq<char>>)
    requires
        cs.len() >= 1,
        cs.last().len() > 0,
    ensures
        join_slash(cs).len() > 0,
        join_slash(cs).last() == cs.last().last(),
{
}

proof fn lemma_split_join(cs: Seq<Seq<char>>)
    requires
        cs.len() >= 1,
        forall|i: int| 0 <= i < cs.len() ==> !(#[trigger] cs[i]).contains('/'),
    ensures
        split_slash(join_slash(cs)) == cs,
    decreases cs.len(),
{
    reveal_strlit("/");
    if cs.len() == 1 {
        lemma_split_append_plain(Seq::empty(), cs[0]);
        assert(Seq::<char>::empty() + cs[0] =~= cs[0]);
        assert(split_slash(Seq::<char>::empty()).update(0, Seq::<char>::empty() + cs[0]) =~= cs);
    } else {
        let pre = cs.drop_last();
        lemma_split_join(pre);
        let x = join_slash(pre) + "/"@;
        assert(x.drop_last() =~= join_slash(pre));
        assert(split_slash(x) == pre.push(Seq::empty()));
        lemma_split_append_plain(x, cs.last());
        assert(Seq::<char>::empty() + cs.last() =~= cs.last());
        assert(pre.push(Seq::empty()).update(pre.len() as int, Seq::<char>::empty() + cs.last())
            =~= cs);
    }
}

proof fn lemma_kept_safe(cs: Seq<Seq<char>>)
    requires
        forall|i: int| 0 <= i < cs.len() ==> safe_component(#[trigger] cs[i]),
    ensures
        kept(cs) == cs,
    decreases cs.len(),
{
    if cs.len() > 0 {
        lemma_kept_safe(cs.drop_last());
        assert(cs.drop_last().push(cs.last()) =~= cs);
    }
}

/// Joining safe components with `/` gives an entry name that extracts to
/// exactly those components: a file, or with a trailing `/` a directory.
pub proof fn lemma_safe_names_round_trip(cs: Seq<Seq<char>>)
    requires
        cs.len() >= 1,
        forall|i: int| 0 <= i < cs.len() ==> safe_component(#[trigger] cs[i]),
    ensures
        entry_target_spec(join_slash(cs)) == Some((cs, false)),
        entry_target_spec(join_slash(cs) + "/"@) == Some((cs, true)),
{
    reveal_strlit("/");
    reveal_strlit("..");
    assert forall|i: int| 0 <= i < cs.len() implies !(#[trigger] cs[i]).contains('/') by {
        assert(safe_component(cs[i]));
    }
    lemma_split_join(cs);
    lemma_kept_safe(cs);
    lemma_join_last(cs);
    assert(safe_component(cs[cs.len() - 1]));
    assert(cs.last().last() != '/') by {
        assert(cs.last()[cs.last().len() - 1] == cs.last().last());
    }
    assert(!cs.contains(".."@)) by {
        if cs.contains(".."@) {
            let j = choose|j: int| 0 <= j < cs.len() && cs[j] == ".."@;
            assert(safe_component(cs[j]));
        }
    }
    let d = join_slash(cs) + "/"@;
    assert(d.drop_last() =~= join_slash(cs));
    assert(split_slash(d) == cs.push(Seq::empty()));
    assert(cs.push(Seq::empty()).drop_last() =~= cs);
    assert(kept(cs.push(Seq::empty())) == cs);
    assert(!cs.push(Seq::empty()).contains(".."@)) by {
        if cs.push(Seq::empty()).contains(".."@) {
            let j = choose|j: int| 0 <= j < cs.len() + 1 && cs.push(Seq::empty())[j] == ".."@;
            if j < cs.len() {
                assert(cs[j] == ".."@);
            }
        }
    }
}

/// An archive whose entries are a directory `<d>/` and a file `<d>/<f>`
/// extracts to that directory and that file inside it, in that order.
pub proof fn lemma_dir_and_file_entries_round_trip(d: Seq<char>, f: Seq<char>)
    requires
        safe_component(d),
        safe_component(f),
    ensures
        plan_spec(seq![d + "/"@, d + "/"@ + f]) == seq![
            (seq![d], true, 0int),
            (seq![d, f], false, 1int),
        ],
{
    let one = seq![d];
    let two = seq![d, f];
    lemma_safe_names_round_trip(one);
    lemma_safe_names_round_trip(two);
    assert(two.drop_last() =~= one);
    assert(join_slash(two) == d + "/"@ + f);
    let names = seq![d + "/"@, d + "/"@ + f];
    assert(names.drop_last() =~= seq![d + "/"@]);
    assert(seq![d + "/"@].drop_last() =~= Seq::<Seq<char>>::empty());
    assert(join_slash(one) == d);
    assert(entry_target_spec(d + "/"@) == Some((one, true)));
    assert(plan_spec(Seq::<Seq<char>>::empty()) == Seq::<(Seq<Seq<char>>, bool, int)>::empty());
    assert(plan_spec(seq![d + "/"@]) =~= seq![(one, true, 0int)]);
    assert(plan_spec(names) =~= seq![(one, true, 0int), (two, false, 1int)]);
}

} // verus!
