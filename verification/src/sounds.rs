//! Sound files: where a sound lives, which sound a file is, and the sorted
//! sound list that the `list` command posts.

use vstd::prelude::*;
use vstd::string::*;
use vstd::seq_lib::*;
use crate::text::{chars_of, string_from_chars, join_range, joined};

verus! {

broadcast use {vstd::seq_lib::to_multiset_build, vstd::seq_lib::to_multiset_insert};

/// The directory that holds the sounds, as a path prefix.
pub open spec fn sound_dir() -> Seq<char> {
    "./sounds/"@
}

/// The file extension of every sound.
pub open spec fn sound_ext() -> Seq<char> {
    ".mp3"@
}

/// The file that holds the sound called `name`.
pub open spec fn sound_path_of(name: Seq<char>) -> Seq<char> {
    sound_dir() + name + sound_ext()
}

/// `path` is the file of some sound: the sound directory, a name, the
/// extension.
pub open spec fn is_sound_path(path: Seq<char>) -> bool {
    &&& path.len() >= sound_dir().len() + sound_ext().len()
    &&& path.take(sound_dir().len() as int) == sound_dir()
    &&& path.skip(path.len() - sound_ext().len()) == sound_ext()
}

/// The name of the sound that `path` holds (meaningful where
/// `is_sound_path(path)`).
pub open spec fn sound_name_in(path: Seq<char>) -> Seq<char> {
    path.subrange(sound_dir().len() as int, path.len() - sound_ext().len())
}

/// The path of the sound file called `name`: `./sounds/{name}.mp3`.
pub fn sound_path(name: &str) -> (r: String)
    ensures
        r@ == sound_path_of(name@),
{
    let mut r = String::from_str("./sounds/");
    r.append(name);
    r.append(".mp3");
    r
}

/// The path of a sound names that sound again: `sound_name_from_path`
/// undoes `sound_path`.
pub proof fn lemma_sound_path_round_trip(name: Seq<char>)
    ensures
        is_sound_path(sound_path_of(name)),
        sound_name_in(sound_path_of(name)) == name,
{
    let p = sound_path_of(name);
    assert(p.take(sound_dir().len() as int) =~= sound_dir());
    assert(p.skip(p.len() - sound_ext().len()) =~= sound_ext());
    assert(sound_name_in(p) =~= name);
}

/// Whether `cs[at..]` begins with `p`.
fn has_prefix_at(cs: &Vec<char>, p: &Vec<char>, at: usize) -> (r: bool)
    requires
        at + p@.len() <= cs@.len(),
    ensures
        r == (cs@.subrange(at as int, at + p@.len()) == p@),
{
    let mut i: usize = 0;
    while i < p.len()
        invariant
            i <= p@.len(),
            at + p@.len() <= cs@.len(),
            cs@.len() == cs.len(),
            forall|j: int| 0 <= j < i ==> cs@[at + j] == p@[j],
        decreases p@.len() - i,
    {
        if cs[at + i] != p[i] {
            assert(cs@.subrange(at as int, at + p@.len())[i as int] != p@[i as int]);
            return false;
        }
        i = i + 1;
    }
    assert(cs@.subrange(at as int, at + p@.len()) =~= p@);
    true
}

/// The name of the sound held by `path` (`./sounds/{name}.mp3`), or `None`
/// where `path` does not have that form.
pub fn sound_name_from_path(path: &str) -> (r: Option<String>)
    ensures
        match r {
            Some(name) => is_sound_path(path@) && name@ == sound_name_in(path@),
            None => !is_sound_path(path@),
        },
{
    proof {
        reveal_strlit("./sounds/");
        reveal_strlit(".mp3");
    }
    let cs = chars_of(path);
    let dir = chars_of("./sounds/");
    let ext = chars_of(".mp3");
    let n = cs.len();
    if n < dir.len() + ext.len() {
        return None;
    }
    let m = n - ext.len();
    let starts = has_prefix_at(&cs, &dir, 0);
    let ends = has_prefix_at(&cs, &ext, m);
    assert(cs@.subrange(0, dir@.len() as int) =~= path@.take(dir@.len() as int));
    assert(cs@.subrange(m as int, m + ext@.len()) =~= path@.skip(m as int));
    if starts && ends {
        Some(string_from_chars(&cs, dir.len(), m))
    } else {
        None
    }
}

/// Text order on character sequences: compares character codes from the
/// left, and a proper prefix comes first. This is the order of `String`'s
/// `Ord`, since UTF-8 keeps the order of code points.
pub open spec fn text_le(a: Seq<char>, b: Seq<char>) -> bool
    decreases a.len(),
{
    if a.len() == 0 {
        true
    } else if b.len() == 0 {
        false
    } else if a[0] == b[0] {
        text_le(a.drop_first(), b.drop_first())
    } else {
        (a[0] as int) < (b[0] as int)
    }
}

/// Any two texts are ordered one way or the other.
pub proof fn lemma_text_le_total(a: Seq<char>, b: Seq<char>)
    ensures
        text_le(a, b) || text_le(b, a),
    decreases a.len(),
{
    if a.len() > 0 && b.len() > 0 && a[0] == b[0] {
        lemma_text_le_total(a.drop_first(), b.drop_first());
    }
}

/// The text order is transitive.
pub proof fn lemma_text_le_transitive(a: Seq<char>, b: Seq<char>, c: Seq<char>)
    requires
        text_le(a, b),
        text_le(b, c),
    ensures
        text_le(a, c),
    decreases a.len(),
{
    if a.len() > 0 && b.len() > 0 && c.len() > 0 && a[0] == b[0] && b[0] == c[0] {
        lemma_text_le_transitive(a.drop_first(), b.drop_first(), c.drop_first());
    }
}

/// The text order is antisymmetric: texts ordered both ways are equal.
pub proof fn lemma_text_le_antisymmetric(a: Seq<char>, b: Seq<char>)
    requires
        text_le(a, b),
        text_le(b, a),
    ensures
        a == b,
    decreases a.len(),
{
    if a.len() > 0 && b.len() > 0 {
        lemma_text_le_antisymmetric(a.drop_first(), b.drop_first());
        assert(a =~= seq![a[0]] + a.drop_first());
        assert(b =~= seq![b[0]] + b.drop_first());
    }
}

/// Every text is ordered before itself.
pub proof fn lemma_text_le_reflexive(a: Seq<char>)
    ensures
        text_le(a, a),
    decreases a.len(),
{
    if a.len() > 0 {
        lemma_text_le_reflexive(a.drop_first());
    }
}

/// The text order is the order of `String`: a prefix comes first, and
/// otherwise the first differing character decides, by its code point.
pub proof fn lemma_text_le_is_string_order(a: Seq<char>, x: Seq<char>, y: Seq<char>, c: char, d: char)
    ensures
        text_le(a, a + x),
        (c as int) < (d as int) ==> text_le(a + seq![c] + x, a + seq![d] + y) && !text_le(
            a + seq![d] + y,
            a + seq![c] + x,
        ),
    decreases a.len(),
{
    if a.len() > 0 {
        lemma_text_le_is_string_order(a.drop_first(), x, y, c, d);
        assert((a + x).drop_first() =~= a.drop_first() + x);
        assert((a + seq![c] + x).drop_first() =~= a.drop_first() + seq![c] + x);
        assert((a + seq![d] + y).drop_first() =~= a.drop_first() + seq![d] + y);
        assert((a + x)[0] == a[0]);
        assert((a + seq![c] + x)[0] == a[0]);
        assert((a + seq![d] + y)[0] == a[0]);
    } else {
        assert(a + seq![c] + x =~= seq![c] + x);
        assert(a + seq![d] + y =~= seq![d] + y);
    }
}

/// Whether `a` comes no later than `b` in text order.
pub fn text_le_exec(a: &str, b: &str) -> (r: bool)
    ensures
        r == text_le(a@, b@),
{
    let x = chars_of(a);
    let y = chars_of(b);
    let mut i: usize = 0;
    assert(x@.skip(0) =~= x@);
    assert(y@.skip(0) =~= y@);
    while i < x.len() && i < y.len()
        invariant
            i <= x@.len(),
            i <= y@.len(),
            x@ == a@,
            y@ == b@,
            text_le(x@, y@) == text_le(x@.skip(i as int), y@.skip(i as int)),
        decreases x@.len() - i,
    {
        assert(x@.skip(i as int)[0] == x@[i as int]);
        assert(y@.skip(i as int)[0] == y@[i as int]);
        if x[i] != y[i] {
            let lt = x[i] < y[i];
            assert(lt == ((x@[i as int] as int) < (y@[i as int] as int)));
            return lt;
        }
        assert(x@.skip(i as int).drop_first() =~= x@.skip(i + 1));
        assert(y@.skip(i as int).drop_first() =~= y@.skip(i + 1));
        i = i + 1;
    }
    i == x.len()
}

/// `s` is in text order.
pub open spec fn is_sorted(s: Seq<Seq<char>>) -> bool {
    forall|i: int, j: int| 0 <= i < j < s.len() ==> text_le(#[trigger] s[i], #[trigger] s[j])
}

/// The names in text order: a sorted permutation of `names`.
pub fn sort_names(names: Vec<String>) -> (r: Vec<String>)
    ensures
        is_sorted(r.deep_view()),
        r.deep_view().to_multiset() == names.deep_view().to_multiset(),
{
    let mut out: Vec<String> = Vec::new();
    let mut k: usize = 0;
    let n = names.len();
    assert(out.deep_view() =~= names.deep_view().take(0));
    while k < n
        invariant
            k <= n,
            n == names@.len(),
            is_sorted(out.deep_view()),
            out.deep_view().to_multiset() == names.deep_view().take(k as int).to_multiset(),
        decreases n - k,
    {
        let key = names[k].clone();
        let mut p: usize = 0;
        while p < out.len() && text_le_exec(out[p].as_str(), key.as_str())
            invariant
                p <= out@.len(),
                forall|j: int| 0 <= j < p ==> text_le(#[trigger] out.deep_view()[j], key@),
            decreases out@.len() - p,
        {
            p = p + 1;
        }
        let ghost before = out.deep_view();
        proof {
            if p < before.len() {
                lemma_text_le_total(before[p as int], key@);
            }
            assert forall|j: int| p <= j < before.len() implies text_le(key@, #[trigger] before[j]) by {
                if j > p {
                    lemma_text_le_transitive(key@, before[p as int], before[j]);
                }
            }
        }
        out.insert(p, key);
        let ghost after = out.deep_view();
        assert(after =~= before.insert(p as int, key@));
        assert forall|i: int, j: int| 0 <= i < j < after.len() implies text_le(
            #[trigger] after[i],
            #[trigger] after[j],
        ) by {
            if i < p && j == p {
            } else if i < p && j > p {
                assert(after[j] == before[j - 1]);
                lemma_text_le_transitive(before[i], key@, before[j - 1]);
            } else if i == p {
                assert(after[j] == before[j - 1]);
            } else if j < p {
            } else {
                assert(after[i] == before[i - 1]);
                assert(after[j] == before[j - 1]);
            }
        }
        assert(names.deep_view().take(k + 1) =~= names.deep_view().take(k as int).push(key@));
        k = k + 1;
    }
    assert(names.deep_view().take(n as int) =~= names.deep_view());
    out
}

/// Two sorted sequences holding the same texts, counted with multiplicity,
/// are equal: sorting has exactly one result.
pub proof fn lemma_sorted_permutation_unique(a: Seq<Seq<char>>, b: Seq<Seq<char>>)
    requires
        is_sorted(a),
        is_sorted(b),
        a.to_multiset() == b.to_multiset(),
    ensures
        a == b,
    decreases a.len(),
{
    broadcast use {
        vstd::seq_lib::to_multiset_contains,
        vstd::seq_lib::to_multiset_len,
        vstd::seq_lib::to_multiset_remove,
    };

    if a.len() == 0 {
        assert(b.len() == b.to_multiset().len());
        assert(a =~= b);
    } else {
        assert(b.len() == b.to_multiset().len());
        assert(a.to_multiset().count(a[0]) > 0) by {
            assert(a.contains(a[0]));
        }
        assert(b.contains(a[0]));
        let j = choose|j: int| 0 <= j < b.len() && b[j] == a[0];
        if j > 0 {
            assert(text_le(b[0], b[j]));
        } else {
            lemma_text_le_reflexive(b[0]);
        }
        assert(b.to_multiset().count(b[0]) > 0) by {
            assert(b.contains(b[0]));
        }
        assert(a.contains(b[0]));
        let k = choose|k: int| 0 <= k < a.len() && a[k] == b[0];
        if k > 0 {
            assert(text_le(a[0], a[k]));
        } else {
            lemma_text_le_reflexive(a[0]);
        }
        lemma_text_le_antisymmetric(a[0], b[0]);
        assert(a.remove(0) =~= a.drop_first());
        assert(b.remove(0) =~= b.drop_first());
        assert(a.remove(0).to_multiset() == a.to_multiset().remove(a[0]));
        assert(b.remove(0).to_multiset() == b.to_multiset().remove(b[0]));
        assert(is_sorted(a.drop_first())) by {
            assert forall|i: int, j: int| 0 <= i < j < a.drop_first().len() implies text_le(
                #[trigger] a.drop_first()[i],
                #[trigger] a.drop_first()[j],
            ) by {
                assert(text_le(a[i + 1], a[j + 1]));
            }
        }
        assert(is_sorted(b.drop_first())) by {
            assert forall|i: int, j: int| 0 <= i < j < b.drop_first().len() implies text_le(
                #[trigger] b.drop_first()[i],
                #[trigger] b.drop_first()[j],
            ) by {
                assert(text_le(b[i + 1], b[j + 1]));
            }
        }
        lemma_sorted_permutation_unique(a.drop_first(), b.drop_first());
        assert(a =~= b) by {
            assert forall|i: int| 0 <= i < a.len() implies a[i] == b[i] by {
                if i > 0 {
                    assert(a[i] == a.drop_first()[i - 1]);
                    assert(b[i] == b.drop_first()[i - 1]);
                }
            }
        }
    }
}

/// The names of the sounds held by `paths`, in the same order.
pub open spec fn names_in(paths: Seq<Seq<char>>) -> Seq<Seq<char>> {
    paths.map_values(|p: Seq<char>| sound_name_in(p))
}

/// Every path is the file of a sound.
pub open spec fn all_sound_paths(paths: Seq<Seq<char>>) -> bool {
    forall|i: int| 0 <= i < paths.len() ==> is_sound_path(#[trigger] paths[i])
}

/// Whether every path is the file of a sound (the sound list can only be
/// made of such paths).
pub fn are_sound_paths(paths: &Vec<String>) -> (r: bool)
    ensures
        r == all_sound_paths(paths.deep_view()),
{
    let n = paths.len();
    let mut i: usize = 0;
    while i < n
        invariant
            i <= n,
            n == paths@.len(),
            forall|j: int| 0 <= j < i ==> is_sound_path(#[trigger] paths.deep_view()[j]),
        decreases n - i,
    {
        assert(paths.deep_view()[i as int] == paths@[i as int]@);
        if sound_name_from_path(paths[i].as_str()).is_none() {
            return false;
        }
        i = i + 1;
    }
    true
}

/// The text of the sound list for the sound files `paths`: their names in
/// text order, formatted by `list_text`.
pub fn sound_list(paths: &Vec<String>) -> (r: String)
    requires
        all_sound_paths(paths.deep_view()),
    ensures
        exists|s: Seq<Seq<char>>|
            is_sorted(s) && s.to_multiset() == names_in(paths.deep_view()).to_multiset() && r@
                == #[trigger] list_text(s),
{
    let n = paths.len();
    let mut names: Vec<String> = Vec::new();
    let mut i: usize = 0;
    while i < n
        invariant
            i <= n,
            n == paths@.len(),
            all_sound_paths(paths.deep_view()),
            names.deep_view() == names_in(paths.deep_view()).take(i as int),
        decreases n - i,
    {
        assert(paths.deep_view()[i as int] == paths@[i as int]@);
        assert(is_sound_path(paths.deep_view()[i as int]));
        match sound_name_from_path(paths[i].as_str()) {
            None => {
                assert(false);
            },
            Some(name) => {
                let ghost before = names.deep_view();
                let ghost nv = name@;
                assert(names_in(paths.deep_view())[i as int] == nv);
                names.push(name);
                assert(names.deep_view() =~= before.push(nv));
                assert(names.deep_view() =~= names_in(paths.deep_view()).take(i + 1));
            },
        }
        i = i + 1;
    }
    assert(names_in(paths.deep_view()).take(n as int) =~= names_in(paths.deep_view()));
    let sorted = sort_names(names);
    let text = format_sound_list(&sorted);
    assert(is_sorted(sorted.deep_view()));
    text
}

/// The line that closes each group of names in the sound list.
pub open spec fn list_separator() -> Seq<char> {
    "\n---------------------------------------------------------------------------------------------\n"@
}

/// How many names one line of the sound list holds.
pub open spec fn names_per_line() -> nat {
    25
}

/// The sound list: the names in groups of 25, each group joined by `", "`
/// and closed by the separator line.
pub open spec fn list_text(names: Seq<Seq<char>>) -> Seq<char>
    decreases names.len(),
{
    if names.len() == 0 {
        Seq::empty()
    } else {
        let k = if names.len() < names_per_line() { names.len() as int } else { names_per_line() as int };
        joined(names.take(k), ", "@) + list_separator() + list_text(names.skip(k))
    }
}

/// The sound list of no names is empty, and up to 25 names make one line:
/// the names joined by `", "`, then the separator.
pub proof fn lemma_list_one_line(names: Seq<Seq<char>>)
    ensures
        names.len() == 0 ==> list_text(names) == Seq::<char>::empty(),
        0 < names.len() <= 25 ==> list_text(names) == joined(names, ", "@) + list_separator(),
{
    if 0 < names.len() <= 25 {
        assert(names.take(names.len() as int) =~= names);
        assert(names.skip(names.len() as int) =~= Seq::<Seq<char>>::empty());
        assert(list_text(Seq::<Seq<char>>::empty()) == Seq::<char>::empty());
        let k = if names.len() < names_per_line() { names.len() as int } else { names_per_line() as int };
        assert(k == names.len());
        assert(list_text(names) == joined(names.take(k), ", "@) + list_separator() + list_text(
            names.skip(k),
        ));
        assert(joined(names, ", "@) + list_separator() + Seq::<char>::empty() =~= joined(
            names,
            ", "@,
        ) + list_separator());
    }
}

/// The sound list is made line by line: after any whole number of full
/// lines of 25 names, the list of the rest follows the list of those lines.
/// So every name is listed, in its chunk of 25, and there are as many
/// separators as chunks.
pub proof fn lemma_list_concat(a: Seq<Seq<char>>, b: Seq<Seq<char>>)
    requires
        a.len() % 25 == 0,
    ensures
        list_text(a + b) == list_text(a) + list_text(b),
    decreases a.len(),
{
    if a.len() == 0 {
        assert(a + b =~= b);
        assert(Seq::<char>::empty() + list_text(b) =~= list_text(b));
    } else {
        let ab = a + b;
        assert(ab.take(25) =~= a.take(25));
        assert(ab.skip(25) =~= a.skip(25) + b);
        lemma_list_concat(a.skip(25), b);
        let head = joined(a.take(25), ", "@) + list_separator();
        assert(list_text(ab) == head + list_text(ab.skip(25)));
        assert(list_text(a) == head + list_text(a.skip(25)));
        assert(head + (list_text(a.skip(25)) + list_text(b)) =~= (head + list_text(a.skip(25)))
            + list_text(b));
    }
}

/// Formats `names` (already in the order wanted) as the sound list.
pub fn format_sound_list(names: &Vec<String>) -> (r: String)
    ensures
        r@ == list_text(names.deep_view()),
{
    let n = names.len();
    let mut list = String::new();
    let mut i: usize = 0;
    assert(names.deep_view().skip(0) =~= names.deep_view());
    while i < n
        invariant
            i <= n,
            n == names@.len(),
            list@ + list_text(names.deep_view().skip(i as int)) == list_text(names.deep_view()),
        decreases n - i,
    {
        let k: usize = if n - i < 25 { n - i } else { 25 };
        let ghost rest = names.deep_view().skip(i as int);
        let chunk = join_range(names, i, i + k, ", ");
        assert(names.deep_view().subrange(i as int, i + k) =~= rest.take(k as int));
        assert(rest.skip(k as int) =~= names.deep_view().skip(i + k));
        let ghost old_list = list@;
        list.append(chunk.as_str());
        list.append("\n---------------------------------------------------------------------------------------------\n");
        assert(old_list + list_text(rest) =~= list@ + list_text(rest.skip(k as int)));
        i = i + k;
    }
    assert(names.deep_view().skip(n as int) =~= Seq::<Seq<char>>::empty());
    assert(list@ + Seq::<char>::empty() =~= list@);
    list
}

} // verus!
