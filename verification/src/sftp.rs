//! Remote directory listings: entries, permission strings, listing order
//! and the directory chain created by `mkdir -p`.

use vstd::prelude::*;
use crate::text::{push_str, str_chars, string_of};

verus! {

/// One directory entry as the file browser shows it.
#[derive(Clone)]
pub struct FileEntry {
    pub name: String,
    pub is_dir: bool,
    pub size: u64,
    pub modified: String,
    pub perm: String,
}

impl FileEntry {
    /// A copy of this entry.
    pub fn duplicate(&self) -> (r: FileEntry)
        ensures
            r == *self,
    {
        FileEntry {
            name: self.name.clone(),
            is_dir: self.is_dir,
            size: self.size,
            modified: self.modified.clone(),
            perm: self.perm.clone(),
        }
    }
}

/// Progress of one file within a recursive transfer.
#[derive(Clone)]
pub struct TransferProgress {
    pub file_name: String,
    pub bytes_written: u64,
    pub total_bytes: u64,
    pub file_index: usize,
    pub total_files: usize,
}

/// `c` when bit `bit` of `mode` is set, `-` otherwise.
pub open spec fn perm_char(mode: u32, bit: u32, c: char) -> char {
    if mode & bit != 0 { c } else { '-' }
}

/// The `ls -l` style permission string: a type letter and nine `rwx` flags;
/// empty when the permissions are unknown.
pub open spec fn perm_text(perm: Option<u32>, is_dir: bool) -> Seq<char> {
    match perm {
        Some(mode) => seq![
            if is_dir { 'd' } else { '-' },
            perm_char(mode, 0o400, 'r'), perm_char(mode, 0o200, 'w'), perm_char(mode, 0o100, 'x'),
            perm_char(mode, 0o040, 'r'), perm_char(mode, 0o020, 'w'), perm_char(mode, 0o010, 'x'),
            perm_char(mode, 0o004, 'r'), perm_char(mode, 0o002, 'w'), perm_char(mode, 0o001, 'x'),
        ],
        None => Seq::empty(),
    }
}

fn flag(mode: u32, bit: u32, c: char) -> (r: char)
    ensures
        r == perm_char(mode, bit, c),
{
    if mode & bit != 0 { c } else { '-' }
}

/// Formats permission bits like `drwxr-xr-x`.
pub fn format_perm(perm: Option<u32>, is_dir: bool) -> (r: String)
    ensures
        r@ == perm_text(perm, is_dir),
{
    match perm {
        Some(mode) => {
            let mut v: Vec<char> = Vec::new();
            v.push(if is_dir { 'd' } else { '-' });
            v.push(flag(mode, 0o400, 'r'));
            v.push(flag(mode, 0o200, 'w'));
            v.push(flag(mode, 0o100, 'x'));
            v.push(flag(mode, 0o040, 'r'));
            v.push(flag(mode, 0o020, 'w'));
            v.push(flag(mode, 0o010, 'x'));
            v.push(flag(mode, 0o004, 'r'));
            v.push(flag(mode, 0o002, 'w'));
            v.push(flag(mode, 0o001, 'x'));
            assert(v@ =~= perm_text(perm, is_dir));
            string_of(&v)
        },
        None => String::new(),
    }
}

/// `a` sorts strictly before `b`, comparing characters by code point
/// (which is how Rust orders `String`s, byte by byte in UTF-8).
pub open spec fn text_lt(a: Seq<char>, b: Seq<char>) -> bool
    decreases a.len(),
{
    if a.len() == 0 {
        b.len() > 0
    } else if b.len() == 0 {
        false
    } else if a[0] != b[0] {
        a[0] < b[0]
    } else {
        text_lt(a.drop_first(), b.drop_first())
    }
}

/// Listing order: directories first, then by name.
pub open spec fn entry_before(a: FileEntry, b: FileEntry) -> bool {
    (a.is_dir && !b.is_dir) || (a.is_dir == b.is_dir && text_lt(a.name@, b.name@))
}

/// `e` put into the ordered list `s` after every entry it does not sort
/// before, so that equal entries keep their order.
pub open spec fn insert_ordered(s: Seq<FileEntry>, e: FileEntry) -> Seq<FileEntry>
    decreases s.len(),
{
    if s.len() == 0 {
        seq![e]
    } else if entry_before(e, s.last()) {
        insert_ordered(s.drop_last(), e).push(s.last())
    } else {
        s.push(e)
    }
}

/// The entries in listing order, ties kept in the order given (a
/// stable sort).
pub open spec fn listing_order(s: Seq<FileEntry>) -> Seq<FileEntry>
    decreases s.len(),
{
    if s.len() == 0 {
        s
    } else {
        insert_ordered(listing_order(s.drop_last()), s.last())
    }
}

/// `.` and `..`, which a listing leaves out.
pub open spec fn is_dot_entry(name: Seq<char>) -> bool {
    name == seq!['.'] || name == seq!['.', '.']
}

/// The entries that a listing shows.
pub open spec fn visible_entries(s: Seq<FileEntry>) -> Seq<FileEntry> {
    s.filter(|e: FileEntry| !is_dot_entry(e.name@))
}

fn text_less(a: &Vec<char>, b: &Vec<char>) -> (r: bool)
    ensures
        r == text_lt(a@, b@),
{
    let mut i: usize = 0;
    assert(a@.skip(0) =~= a@);
    assert(b@.skip(0) =~= b@);
    while i < a.len() && i < b.len() && a[i] == b[i]
        invariant
            i <= a.len(),
            i <= b.len(),
            text_lt(a@, b@) == text_lt(a@.skip(i as int), b@.skip(i as int)),
        decreases a.len() - i,
    {
        assert(a@.skip(i as int).drop_first() =~= a@.skip(i as int + 1));
        assert(b@.skip(i as int).drop_first() =~= b@.skip(i as int + 1));
        i = i + 1;
    }
    if i == a.len() {
        assert(a@.skip(i as int).len() == 0);
        i < b.len()
    } else if i == b.len() {
        false
    } else {
        assert(a@.skip(i as int)[0] == a@[i as int]);
        assert(b@.skip(i as int)[0] == b@[i as int]);
        a[i] < b[i]
    }
}

fn before(a: &FileEntry, b: &FileEntry) -> (r: bool)
    ensures
        r == entry_before(*a, *b),
{
    if a.is_dir && !b.is_dir {
        return true;
    }
    if a.is_dir != b.is_dir {
        return false;
    }
    let x = str_chars(a.name.as_str());
    let y = str_chars(b.name.as_str());
    text_less(&x, &y)
}

fn is_dot_name(name: &String) -> (r: bool)
    ensures
        r == is_dot_entry(name@),
{
    let v = str_chars(name.as_str());
    let r = (v.len() == 1 && v[0] == '.') || (v.len() == 2 && v[0] == '.' && v[1] == '.');
    proof {
        if v.len() == 1 && v[0] == '.' {
            assert(v@ =~= seq!['.']);
        }
        if v.len() == 2 && v[0] == '.' && v[1] == '.' {
            assert(v@ =~= seq!['.', '.']);
        }
    }
    r
}

fn insert_entry(sorted: Vec<FileEntry>, e: FileEntry) -> (r: Vec<FileEntry>)
    ensures
        r@ == insert_ordered(sorted@, e),
    decreases sorted@.len(),
{
    let mut sorted = sorted;
    if sorted.len() == 0 {
        let mut r: Vec<FileEntry> = Vec::new();
        r.push(e);
        assert(r@ =~= seq![e]);
        return r;
    }
    let ghost s0 = sorted@;
    let n = sorted.len();
    if before(&e, &sorted[n - 1]) {
        let last = sorted.pop().unwrap();
        assert(sorted@ =~= s0.drop_last());
        let mut r = insert_entry(sorted, e);
        r.push(last);
        r
    } else {
        sorted.push(e);
        sorted
    }
}

/// The entries in listing order: directories first, then by name, ties
/// kept in their order.
pub fn sort_listing(v: Vec<FileEntry>) -> (r: Vec<FileEntry>)
    ensures
        r@ == listing_order(v@),
{
    let mut out: Vec<FileEntry> = Vec::new();
    let mut i: usize = 0;
    while i < v.len()
        invariant
            i <= v@.len(),
            out@ == listing_order(v@.take(i as int)),
        decreases v@.len() - i,
    {
        let e = v[i].duplicate();
        assert(v@.take(i as int + 1).drop_last() =~= v@.take(i as int));
        out = insert_entry(out, e);
        i = i + 1;
    }
    assert(v@.take(v@.len() as int) =~= v@);
    out
}

/// The listing that the file browser shows for the raw entries of a
/// directory: `.` and `..` dropped, directories first, then by name.
pub fn arrange_listing(raw: Vec<FileEntry>) -> (r: Vec<FileEntry>)
    ensures
        r@ == listing_order(visible_entries(raw@)),
{
    let mut out: Vec<FileEntry> = Vec::new();
    let mut i: usize = 0;
    let ghost pred = |e: FileEntry| !is_dot_entry(e.name@);
    while i < raw.len()
        invariant
            i <= raw@.len(),
            pred == (|e: FileEntry| !is_dot_entry(e.name@)),
            out@ == listing_order(raw@.take(i as int).filter(pred)),
        decreases raw@.len() - i,
    {
        let ghost prefix = raw@.take(i as int);
        assert(raw@.take(i as int + 1) =~= prefix.push(raw@[i as int]));
        proof { prefix.lemma_filter_push(raw@[i as int], pred); }
        if !is_dot_name(&raw[i].name) {
            let e = raw[i].duplicate();
            proof {
                let f = prefix.filter(pred);
                assert(f.push(e).drop_last() =~= f);
                assert(listing_order(f.push(e)) == insert_ordered(listing_order(f), e));
            }
            out = insert_entry(out, e);
            assert(pred(raw@[i as int]));
            assert(raw@.take(i as int + 1).filter(pred) == prefix.filter(pred).push(raw@[i as int]));
        } else {
            assert(!pred(raw@[i as int]));
            assert(raw@.take(i as int + 1).filter(pred) == prefix.filter(pred));
        }
        i = i + 1;
    }
    assert(raw@.take(raw@.len() as int) =~= raw@);
    out
}

} // verus!

verus! {

proof fn lemma_text_lt_irrefl(a: Seq<char>)
    ensures
        !text_lt(a, a),
    decreases a.len(),
{
    if a.len() > 0 {
        lemma_text_lt_irrefl(a.drop_first());
    }
}

proof fn lemma_text_lt_trans(a: Seq<char>, b: Seq<char>, c: Seq<char>)
    requires
        text_lt(a, b),
        text_lt(b, c),
    ensures
        text_lt(a, c),
    decreases a.len(),
{
    if a.len() > 0 && b.len() > 0 && c.len() > 0 && a[0] == b[0] && b[0] == c[0] {
        lemma_text_lt_trans(a.drop_first(), b.drop_first(), c.drop_first());
    }
}

proof fn lemma_text_lt_total(a: Seq<char>, b: Seq<char>)
    requires
        a != b,
    ensures
        text_lt(a, b) || text_lt(b, a),
    decreases a.len(),
{
    if a.len() > 0 && b.len() > 0 && a[0] == b[0] {
        if a.drop_first() == b.drop_first() {
            assert(a =~= seq![a[0]] + a.drop_first());
            assert(b =~= seq![b[0]] + b.drop_first());
        }
        lemma_text_lt_total(a.drop_first(), b.drop_first());
    } else if a.len() > 0 && b.len() > 0 {
    } else if a.len() == 0 && b.len() == 0 {
        assert(a =~= b);
    }
}

proof fn lemma_before_trans(a: FileEntry, b: FileEntry, c: FileEntry)
    requires
        entry_before(a, b),
        entry_before(b, c),
    ensures
        entry_before(a, c),
{
    if a.is_dir == b.is_dir && b.is_dir == c.is_dir {
        lemma_text_lt_trans(a.name@, b.name@, c.name@);
    }
}

proof fn lemma_before_irrefl(a: FileEntry)
    ensures
        !entry_before(a, a),
{
    lemma_text_lt_irrefl(a.name@);
}

/// Not sorting before is transitive: the listing order is a strict weak order.
proof fn lemma_not_before_trans(a: FileEntry, b: FileEntry, c: FileEntry)
    requires
        !entry_before(a, b),
        !entry_before(b, c),
    ensures
        !entry_before(a, c),
{
    if entry_before(a, c) {
        if a.is_dir == b.is_dir && a.name@ != b.name@ {
            lemma_text_lt_total(a.name@, b.name@);
        }
        if b.is_dir == c.is_dir && b.name@ != c.name@ {
            lemma_text_lt_total(b.name@, c.name@);
        }
        if a.is_dir == b.is_dir && text_lt(b.name@, a.name@) && b.is_dir == c.is_dir {
            lemma_text_lt_trans(b.name@, a.name@, c.name@);
        }
    }
}

/// No later entry of `s` sorts before an earlier one.
pub open spec fn in_listing_order(s: Seq<FileEntry>) -> bool {
    forall|i: int, j: int| 0 <= i < j < s.len() ==> !entry_before(#[trigger] s[j], #[trigger] s[i])
}

proof fn lemma_insert_ordered(s: Seq<FileEntry>, e: FileEntry)
    requires
        in_listing_order(s),
    ensures
        in_listing_order(insert_ordered(s, e)),
        insert_ordered(s, e).to_multiset() == s.to_multiset().insert(e),
    decreases s.len(),
{
    broadcast use vstd::multiset::group_multiset_axioms, vstd::seq_lib::group_seq_properties;
    if s.len() == 0 {
        assert(seq![e].to_multiset() =~= vstd::multiset::Multiset::empty().insert(e)) by {
            assert(seq![e] =~= Seq::<FileEntry>::empty().push(e));
        }
    } else if entry_before(e, s.last()) {
        let l = s.last();
        let t = s.drop_last();
        assert(in_listing_order(t));
        lemma_insert_ordered(t, e);
        let u = insert_ordered(t, e);
        let r = u.push(l);
        assert(s =~= t.push(l));
        assert forall|i: int, j: int| 0 <= i < j < r.len() implies !entry_before(#[trigger] r[j], #[trigger] r[i]) by {
            if j == r.len() - 1 {
                // r[i] is an element of t or e; none sorts after l.
                assert(u.to_multiset().count(u[i]) > 0);
                assert(u.contains(u[i]));
                if u[i] == e {
                    lemma_before_irrefl(e);
                    if entry_before(l, e) {
                        lemma_before_trans(l, e, l);
                        lemma_before_irrefl(l);
                    }
                } else {
                    assert(t.to_multiset().count(u[i]) > 0);
                    assert(t.contains(u[i]));
                    let k = choose|k: int| 0 <= k < t.len() && t[k] == u[i];
                    assert(s[k] == t[k] && s[s.len() - 1] == l);
                }
            }
        }
    } else {
        let r = s.push(e);
        assert forall|i: int, j: int| 0 <= i < j < r.len() implies !entry_before(#[trigger] r[j], #[trigger] r[i]) by {
            if j == r.len() - 1 && i < s.len() - 1 {
                assert(!entry_before(s[s.len() - 1], s[i]));
                lemma_not_before_trans(e, s[s.len() - 1], s[i]);
            }
        }
    }
}

/// The file browser's listing is in order: directories before files, and
/// names ascending within each group.
pub proof fn law_listing_sorted(s: Seq<FileEntry>)
    ensures
        in_listing_order(listing_order(s)),
    decreases s.len(),
{
    if s.len() > 0 {
        law_listing_sorted(s.drop_last());
        lemma_insert_ordered(listing_order(s.drop_last()), s.last());
    }
}

/// Ordering the listing neither drops nor duplicates an entry.
pub proof fn law_listing_permutes(s: Seq<FileEntry>)
    ensures
        listing_order(s).to_multiset() == s.to_multiset(),
    decreases s.len(),
{
    broadcast use vstd::multiset::group_multiset_axioms, vstd::seq_lib::group_seq_properties;
    if s.len() > 0 {
        law_listing_permutes(s.drop_last());
        law_listing_sorted(s.drop_last());
        lemma_insert_ordered(listing_order(s.drop_last()), s.last());
        assert(s =~= s.drop_last().push(s.last()));
    }
}

} // verus!

verus! {

/// The pieces of `s` between `sep` characters, empty pieces included (as
/// `str::split(sep)` gives them).
pub open spec fn pieces_by(s: Seq<char>, sep: char) -> Seq<Seq<char>>
    decreases s.len(),
{
    if s.len() == 0 {
        seq![Seq::empty()]
    } else if s.last() == sep {
        pieces_by(s.drop_last(), sep).push(Seq::empty())
    } else {
        let p = pieces_by(s.drop_last(), sep);
        p.update(p.len() - 1, p.last().push(s.last()))
    }
}

/// The non-empty pieces of `s` between `/` separators: its path components.
pub open spec fn components(s: Seq<char>) -> Seq<Seq<char>> {
    pieces_by(s, '/').filter(|p: Seq<char>| p.len() > 0)
}

/// `/c1/c2/.../cn` for the components `l`.
pub open spec fn rooted(l: Seq<Seq<char>>) -> Seq<char>
    decreases l.len(),
{
    if l.len() == 0 {
        Seq::empty()
    } else {
        rooted(l.drop_last()) + seq!['/'] + l.last()
    }
}

/// The directories `mkdir -p` visits for `path`, outermost first: the root
/// when the path is absolute, then `/c1`, `/c1/c2`, ... for its components.
/// (A relative path is taken from the root as well.)
pub open spec fn mkdir_chain(path: Seq<char>) -> Seq<Seq<char>> {
    let comps = components(path);
    let head: Seq<Seq<char>> = if path.len() > 0 && path[0] == '/' { seq![seq!['/']] } else { Seq::empty() };
    head + Seq::new(comps.len(), |k: int| rooted(comps.take(k + 1)))
}

proof fn lemma_pieces_nonempty(s: Seq<char>)
    ensures
        pieces_by(s, '/').len() >= 1,
    decreases s.len(),
{
    if s.len() > 0 {
        lemma_pieces_nonempty(s.drop_last());
    }
}

/// The path components of `v`.
pub fn path_components(v: &Vec<char>) -> (r: Vec<Vec<char>>)
    ensures
        r@.map_values(|x: Vec<char>| x@) == components(v@),
{
    let ghost nonempty = |p: Seq<char>| p.len() > 0;
    let mut done: Vec<Vec<char>> = Vec::new();
    let mut cur: Vec<char> = Vec::new();
    let mut i: usize = 0;
    proof {
        assert(v@.take(0) =~= Seq::<char>::empty());
        assert(pieces_by(Seq::<char>::empty(), '/').drop_last() =~= Seq::<Seq<char>>::empty());
        assert(Seq::<Seq<char>>::empty().filter(nonempty) =~= Seq::<Seq<char>>::empty());
    }
    while i < v.len()
        invariant
            i <= v.len(),
            nonempty == (|p: Seq<char>| p.len() > 0),
            pieces_by(v@.take(i as int), '/').len() >= 1,
            cur@ == pieces_by(v@.take(i as int), '/').last(),
            done@.map_values(|x: Vec<char>| x@) == pieces_by(v@.take(i as int), '/').drop_last().filter(nonempty),
        decreases v.len() - i,
    {
        let ghost p = pieces_by(v@.take(i as int), '/');
        assert(v@.take(i as int + 1).drop_last() =~= v@.take(i as int));
        assert(v@.take(i as int + 1).last() == v@[i as int]);
        if v[i] == '/' {
            proof {
                p.drop_last().lemma_filter_push(p.last(), nonempty);
                assert(p =~= p.drop_last().push(p.last()));
                assert(pieces_by(v@.take(i as int + 1), '/').drop_last() =~= p);
            }
            if cur.len() > 0 {
                let ghost before = done@;
                done.push(cur);
                assert(done@.map_values(|x: Vec<char>| x@) =~= before.map_values(|x: Vec<char>| x@).push(p.last()));
            }
            cur = Vec::new();
        } else {
            cur.push(v[i]);
            proof {
                let q = pieces_by(v@.take(i as int + 1), '/');
                assert(q.drop_last() =~= p.drop_last());
            }
        }
        i = i + 1;
    }
    proof {
        assert(v@.take(v.len() as int) =~= v@);
        let p = pieces_by(v@, '/');
        p.drop_last().lemma_filter_push(p.last(), nonempty);
        assert(p =~= p.drop_last().push(p.last()));
    }
    if cur.len() > 0 {
        let ghost before = done@;
        done.push(cur);
        assert(done@.map_values(|x: Vec<char>| x@) =~= before.map_values(|x: Vec<char>| x@).push(pieces_by(v@, '/').last()));
    }
    done
}

/// The directories to create, outermost first, for `mkdir -p path`.
pub fn mkdir_p_steps(path: &str) -> (r: Vec<String>)
    ensures
        r@.map_values(|s: String| s@) == mkdir_chain(path@),
{
    let v = str_chars(path);
    let comps = path_components(&v);
    let ghost cs = components(path@);
    let mut out: Vec<String> = Vec::new();
    let abs = v.len() > 0 && v[0] == '/';
    let ghost head: Seq<Seq<char>> = if path@.len() > 0 && path@[0] == '/' { seq![seq!['/']] } else { Seq::empty() };
    if abs {
        let mut root: Vec<char> = Vec::new();
        root.push('/');
        out.push(string_of(&root));
    }
    assert(out@.map_values(|s: String| s@) =~= head);
    let mut acc: Vec<char> = Vec::new();
    let mut k: usize = 0;
    assert(cs.take(0) =~= Seq::<Seq<char>>::empty());
    while k < comps.len()
        invariant
            k <= comps@.len(),
            comps@.map_values(|x: Vec<char>| x@) == cs,
            acc@ == rooted(cs.take(k as int)),
            out@.map_values(|s: String| s@) == head + Seq::new(k as nat, |j: int| rooted(cs.take(j + 1))),
        decreases comps@.len() - k,
    {
        acc.push('/');
        let mut j: usize = 0;
        let ghost start = acc@;
        while j < comps[k].len()
            invariant
                k < comps@.len(),
                j <= comps@[k as int]@.len(),
                acc@ == start + comps@[k as int]@.take(j as int),
            decreases comps@[k as int]@.len() - j,
        {
            acc.push(comps[k][j]);
            j = j + 1;
            assert(acc@ =~= start + comps@[k as int]@.take(j as int));
        }
        assert(comps@[k as int]@.take(j as int) =~= comps@[k as int]@);
        assert(cs.take(k as int + 1).drop_last() =~= cs.take(k as int));
        assert(cs[k as int] == comps@[k as int]@);
        assert(cs.take(k as int + 1).last() == cs[k as int]);
        assert(acc@ =~= rooted(cs.take(k as int)) + seq!['/'] + cs[k as int]);
        assert(acc@ == rooted(cs.take(k as int + 1)));
        let ghost before = out@;
        let step = string_of(&acc);
        out.push(step);
        assert(out@.map_values(|s: String| s@) =~= before.map_values(|s: String| s@).push(step@));
        k = k + 1;
        assert(out@.map_values(|s: String| s@) =~= head + Seq::new(k as nat, |j: int| rooted(cs.take(j + 1))));
    }
    out
}

/// `s` without its trailing `/` characters.
pub open spec fn trim_end_slashes(s: Seq<char>) -> Seq<char>
    decreases s.len(),
{
    if s.len() > 0 && s.last() == '/' {
        trim_end_slashes(s.drop_last())
    } else {
        s
    }
}

/// Remote path of child `name` of directory `dir`: `dir` without trailing
/// slashes, `/`, then the name.
pub fn remote_child_path(dir: &str, name: &str) -> (r: String)
    ensures
        r@ == trim_end_slashes(dir@) + seq!['/'] + name@,
{
    let v = str_chars(dir);
    let mut end: usize = v.len();
    assert(v@.take(end as int) =~= v@);
    while end > 0 && v[end - 1] == '/'
        invariant
            end <= v.len(),
            trim_end_slashes(v@.take(end as int)) == trim_end_slashes(dir@),
        decreases end,
    {
        assert(v@.take(end as int).drop_last() =~= v@.take(end as int - 1));
        end = end - 1;
    }
    let mut out: Vec<char> = Vec::new();
    let mut i: usize = 0;
    while i < end
        invariant
            i <= end <= v.len(),
            out@ == v@.take(i as int),
        decreases end - i,
    {
        out.push(v[i]);
        i = i + 1;
        assert(out@ =~= v@.take(i as int));
    }
    out.push('/');
    push_str(&mut out, name);
    string_of(&out)
}

} // verus!

verus! {

/// All pieces of `v` between `sep` characters, as `str::split` gives them.
pub fn split_pieces(v: &Vec<char>, sep: char) -> (r: Vec<Vec<char>>)
    ensures
        r@.map_values(|x: Vec<char>| x@) == pieces_by(v@, sep),
{
    let mut done: Vec<Vec<char>> = Vec::new();
    let mut cur: Vec<char> = Vec::new();
    let mut i: usize = 0;
    assert(v@.take(0) =~= Seq::<char>::empty());
    assert(pieces_by(Seq::<char>::empty(), sep).drop_last() =~= Seq::<Seq<char>>::empty());
    while i < v.len()
        invariant
            i <= v.len(),
            pieces_by(v@.take(i as int), sep).len() >= 1,
            cur@ == pieces_by(v@.take(i as int), sep).last(),
            done@.map_values(|x: Vec<char>| x@) == pieces_by(v@.take(i as int), sep).drop_last(),
        decreases v.len() - i,
    {
        let ghost p = pieces_by(v@.take(i as int), sep);
        assert(v@.take(i as int + 1).drop_last() =~= v@.take(i as int));
        assert(v@.take(i as int + 1).last() == v@[i as int]);
        if v[i] == sep {
            let ghost before = done@;
            done.push(cur);
            assert(done@.map_values(|x: Vec<char>| x@) =~= before.map_values(|x: Vec<char>| x@).push(p.last()));
            assert(p =~= p.drop_last().push(p.last()));
            cur = Vec::new();
        } else {
            cur.push(v[i]);
            proof {
                let q = pieces_by(v@.take(i as int + 1), sep);
                assert(q.drop_last() =~= p.drop_last());
            }
        }
        i = i + 1;
    }
    assert(v@.take(v.len() as int) =~= v@);
    let ghost p = pieces_by(v@, sep);
    let ghost before = done@;
    done.push(cur);
    assert(done@.map_values(|x: Vec<char>| x@) =~= before.map_values(|x: Vec<char>| x@).push(p.last()));
    assert(p =~= p.drop_last().push(p.last()));
    done
}

} // verus!
