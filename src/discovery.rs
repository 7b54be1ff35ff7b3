use vstd::prelude::*;
use vstd::string::*;

verus! {

/// One entry of a directory listing, as the listing produced it.
#[derive(Clone, Debug)]
pub enum ListedEntry {
    /// The entry could not be read.
    Unreadable,
    /// The entry's name is not valid text.
    BadName,
    /// A readable entry: its file name and its full path.
    Named { name: String, path: String },
}

/// `s` ends with `suf`.
pub open spec fn has_suffix(s: Seq<char>, suf: Seq<char>) -> bool {
    suf.len() <= s.len() && s.subrange(s.len() - suf.len(), s.len() as int) == suf
}

/// A name ends in `JPG`, `jpg` or `jpeg`, with case as written.
pub open spec fn jpeg_name(name: Seq<char>) -> bool {
    has_suffix(name, "JPG"@) || has_suffix(name, "jpg"@) || has_suffix(name, "jpeg"@)
}

/// The paths of the readable, validly named entries whose names are JPEG
/// names, in listing order.
pub open spec fn jpeg_paths(es: Seq<ListedEntry>) -> Seq<Seq<char>>
    decreases es.len(),
{
    if es.len() == 0 {
        seq![]
    } else {
        let rest = jpeg_paths(es.drop_last());
        match es.last() {
            ListedEntry::Named { name, path } => if jpeg_name(name@) {
                rest.push(path@)
            } else {
                rest
            },
            _ => rest,
        }
    }
}

/// The texts of a sequence of strings.
pub open spec fn views(v: Seq<String>) -> Seq<Seq<char>> {
    v.map_values(|s: String| s@)
}

fn ends_with(s: &str, suf: &str) -> (r: bool)
    ensures
        r == has_suffix(s@, suf@),
{
    let n = s.unicode_len();
    let m = suf.unicode_len();
    if m > n {
        return false;
    }
    let base = n - m;
    let mut i: usize = 0;
    while i < m
        invariant
            i <= m,
            base + m == n,
            n == s@.len(),
            m == suf@.len(),
            forall|j: int| 0 <= j < i ==> s@[base + j] == suf@[j],
        decreases m - i,
    {
        if s.get_char(base + i) != suf.get_char(i) {
            assert(s@.subrange(base as int, n as int)[i as int] != suf@[i as int]);
            return false;
        }
        i += 1;
    }
    assert(s@.subrange(base as int, n as int) =~= suf@);
    true
}

/// Whether a file name is accepted as a JPEG: it ends in `JPG`, `jpg` or
/// `jpeg`, case-sensitively.
pub fn is_jpeg_name(name: &str) -> (r: bool)
    ensures
        r == jpeg_name(name@),
{
    ends_with(name, "JPG") || ends_with(name, "jpg") || ends_with(name, "jpeg")
}

/// The JPEG files of one directory listing: the paths of the entries that
/// were readable, have a valid name, and whose name is a JPEG name, in the
/// order of the listing. Nothing below the listed entries is looked at.
pub fn find_all_jpegs(entries: &Vec<ListedEntry>) -> (r: Vec<String>)
    ensures
        views(r@) == jpeg_paths(entries@),
{
    let mut r: Vec<String> = Vec::new();
    let mut i: usize = 0;
    while i < entries.len()
        invariant
            i <= entries@.len(),
            views(r@) == jpeg_paths(entries@.take(i as int)),
        decreases entries@.len() - i,
    {
        let ghost before = r@;
        assert(entries@.take(i + 1).drop_last() =~= entries@.take(i as int));
        match &entries[i] {
            ListedEntry::Named { name, path } => {
                if is_jpeg_name(name.as_str()) {
                    r.push(path.clone());
                    assert(views(r@) =~= views(before).push(path@));
                }
            },
            _ => {},
        }
        i += 1;
    }
    assert(entries@.take(entries@.len() as int) =~= entries@);
    r
}

/// Entry `i` of a listing is a readable, validly named JPEG at path `p`.
pub open spec fn jpeg_entry_at(es: Seq<ListedEntry>, i: int, p: Seq<char>) -> bool {
    0 <= i < es.len() && match es[i] {
        ListedEntry::Named { name, path } => jpeg_name(name@) && path@ == p,
        _ => false,
    }
}

/// A path is among the JPEG paths of a listing exactly when some readable,
/// validly named entry of the listing has that path and a name ending in
/// `JPG`, `jpg` or `jpeg`: unreadable entries, undecodable names and other
/// names are left out, and nothing but the listed entries is found.
pub proof fn lemma_jpeg_paths_members(es: Seq<ListedEntry>, p: Seq<char>)
    ensures
        jpeg_paths(es).contains(p) <==> exists|i: int| jpeg_entry_at(es, i, p),
    decreases es.len(),
{
    if es.len() > 0 {
        let init = es.drop_last();
        let last = es.len() - 1;
        let rest = jpeg_paths(init);
        lemma_jpeg_paths_members(init, p);
        assert forall|i: int| 0 <= i < last implies jpeg_entry_at(init, i, p) == jpeg_entry_at(
            es,
            i,
            p,
        ) by {
            assert(init[i] == es[i]);
        }
        if exists|i: int| jpeg_entry_at(init, i, p) {
            let i = choose|i: int| jpeg_entry_at(init, i, p);
            assert(jpeg_entry_at(es, i, p));
        }
        if exists|i: int| jpeg_entry_at(es, i, p) {
            let i = choose|i: int| jpeg_entry_at(es, i, p);
            if i < last {
                assert(jpeg_entry_at(init, i, p));
            }
        }
        let extended = match es.last() {
            ListedEntry::Named { name, path } => jpeg_name(name@),
            _ => false,
        };
        if extended {
            let q = match es.last() {
                ListedEntry::Named { name, path } => path@,
                _ => p,
            };
            assert(jpeg_paths(es) == rest.push(q));
            assert(jpeg_entry_at(es, last, p) <==> q == p);
            if q == p {
                assert(rest.push(q)[rest.len() as int] == p);
            }
            if rest.contains(p) {
                let k = choose|k: int| 0 <= k < rest.len() && rest[k] == p;
                assert(rest.push(q)[k] == p);
            }
            if rest.push(q).contains(p) && q != p {
                let k = choose|k: int| 0 <= k < rest.len() + 1 && rest.push(q)[k] == p;
                assert(k < rest.len());
                assert(rest[k] == p);
            }
        } else {
            assert(jpeg_paths(es) == rest);
            assert(!jpeg_entry_at(es, last, p));
        }
    }
}

/// As a set, what a listing yields is exactly the set of paths of its
/// readable, validly named entries whose names end in `JPG`, `jpg` or `jpeg`.
pub proof fn lemma_jpeg_paths_set(es: Seq<ListedEntry>)
    ensures
        jpeg_paths(es).to_set() == Set::new(|p: Seq<char>| exists|i: int| jpeg_entry_at(es, i, p)),
{
    assert forall|p: Seq<char>| #[trigger] jpeg_paths(es).to_set().contains(p) <==> (exists|i: int|
        jpeg_entry_at(es, i, p)) by {
        lemma_jpeg_paths_members(es, p);
    }
    assert(jpeg_paths(es).to_set() =~= Set::new(
        |p: Seq<char>| exists|i: int| jpeg_entry_at(es, i, p),
    ));
}

} // verus!
