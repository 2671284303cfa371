//! Unix path operations on text: joining, splitting into components,
//! file names, stems and extensions, as `std::path` treats them.

use vstd::prelude::*;
use crate::text::{chars_equal, extend_chars, find_char, lemma_find_char};

verus! {

/// The directory under which the amiibo dumps are kept.
pub open spec fn amiibo_root() -> Seq<char> {
    seq!['p', 'u', 'b', 'l', 'i', 'c', '/', 'a', 'm', 'i', 'i', 'b', 'o']
}

/// The components of [`amiibo_root`].
pub open spec fn amiibo_root_components() -> Seq<Seq<char>> {
    seq![seq!['p', 'u', 'b', 'l', 'i', 'c'], seq!['a', 'm', 'i', 'i', 'b', 'o']]
}

/// `base` joined with `p`: `p` itself when it is absolute, else `p` appended to
/// `base` with a `/` between them unless `base` is empty or already ends in one.
pub open spec fn join(base: Seq<char>, p: Seq<char>) -> Seq<char> {
    if p.len() > 0 && p[0] == '/' {
        p
    } else if base.len() == 0 || base.last() == '/' {
        base + p
    } else {
        base + seq!['/'] + p
    }
}

/// The pieces of `s` between the `/` separators, in order (`s` itself when it has none).
pub open spec fn segments(s: Seq<char>) -> Seq<Seq<char>>
    decreases s.len(),
{
    proof {
        lemma_find_char(s, '/');
    }
    match find_char(s, '/') {
        None => seq![s],
        Some(i) => seq![s.take(i)] + segments(s.skip(i + 1)),
    }
}

/// Whether a segment names a component: it is neither empty nor `.`.
pub open spec fn is_named(seg: Seq<char>) -> bool {
    seg.len() > 0 && seg != seq!['.']
}

/// The segments that name components, in order.
pub open spec fn named(segs: Seq<Seq<char>>) -> Seq<Seq<char>>
    decreases segs.len(),
{
    if segs.len() == 0 {
        seq![]
    } else if is_named(segs[0]) {
        seq![segs[0]] + named(segs.drop_first())
    } else {
        named(segs.drop_first())
    }
}

/// The components of a path, each as its text: `/` for the root of an
/// absolute path, `.` for a leading current-directory component of a relative
/// path, then every segment that is neither empty nor `.`.
pub open spec fn components(s: Seq<char>) -> Seq<Seq<char>> {
    let segs = segments(s);
    if s.len() > 0 && s[0] == '/' {
        seq![seq!['/']] + named(segs)
    } else if segs[0] == seq!['.'] {
        seq![seq!['.']] + named(segs)
    } else {
        named(segs)
    }
}

/// The components of `path` after the components of [`amiibo_root`], when the
/// path starts with them (`Path::strip_prefix`).
pub open spec fn under_amiibo_root(path: Seq<char>) -> Option<Seq<Seq<char>>> {
    let c = components(path);
    if c.len() >= 2 && c.take(2) == amiibo_root_components() {
        Some(c.skip(2))
    } else {
        None
    }
}

/// Each part followed by one space, all concatenated.
pub open spec fn spaced(parts: Seq<Seq<char>>) -> Seq<char>
    decreases parts.len(),
{
    if parts.len() == 0 {
        seq![]
    } else {
        parts[0] + seq![' '] + spaced(parts.drop_first())
    }
}

/// The category title of a directory below the amiibo root: its components
/// below the root, each followed by a space.
pub open spec fn category_title(path: Seq<char>) -> Option<Seq<char>> {
    match under_amiibo_root(path) {
        Some(rest) => Some(spaced(rest)),
        None => None,
    }
}

/// The index just after the last `/` in `s`, or 0 when there is none.
pub open spec fn last_segment_start(s: Seq<char>) -> int
    decreases s.len(),
{
    if s.len() == 0 {
        0
    } else if s.last() == '/' {
        s.len() as int
    } else {
        last_segment_start(s.drop_last())
    }
}

/// Where the file name of a path lies in its text: the last segment that is
/// neither empty nor `.`, unless that is `..` or there is none (`Path::file_name`).
pub open spec fn name_span(s: Seq<char>) -> Option<(int, int)>
    decreases s.len(),
{
    if s.len() == 0 {
        None
    } else if s.last() == '/' {
        name_span(s.drop_last())
    } else {
        let a = last_segment_start(s);
        let seg = s.skip(a);
        if seg == seq!['.'] {
            if a == 0 {
                None
            } else {
                proof {
                    lemma_last_segment_start(s);
                }
                name_span(s.take(a))
            }
        } else if seg == seq!['.', '.'] {
            None
        } else {
            Some((a, s.len() as int))
        }
    }
}

/// The index of the last `.` in `s`, if any.
pub open spec fn last_dot(s: Seq<char>) -> Option<int>
    decreases s.len(),
{
    if s.len() == 0 {
        None
    } else if s.last() == '.' {
        Some(s.len() - 1)
    } else {
        last_dot(s.drop_last())
    }
}

/// The length of the stem of a file name: the part before its last `.`,
/// or the whole name when the last `.` is its first character or it has none.
pub open spec fn stem_len(name: Seq<char>) -> int {
    match last_dot(name) {
        Some(i) => if i > 0 {
            i
        } else {
            name.len() as int
        },
        None => name.len() as int,
    }
}

/// The file stem of a path (`Path::file_stem`).
pub open spec fn file_stem(s: Seq<char>) -> Option<Seq<char>> {
    match name_span(s) {
        Some((a, b)) => Some(s.subrange(a, a + stem_len(s.subrange(a, b)))),
        None => None,
    }
}

/// The path with its extension set to `ext` (`Path::with_extension`): cut
/// after the file stem and append `.` and `ext`; unchanged without a file name.
pub open spec fn with_extension(s: Seq<char>, ext: Seq<char>) -> Seq<char> {
    match name_span(s) {
        Some((a, b)) => s.take(a + stem_len(s.subrange(a, b))) + seq!['.'] + ext,
        None => s,
    }
}

/// Where the last segment starts: just after a `/`, with none after it.
pub proof fn lemma_last_segment_start(s: Seq<char>)
    ensures
        0 <= last_segment_start(s) <= s.len(),
        last_segment_start(s) > 0 ==> s[last_segment_start(s) - 1] == '/',
        forall|j: int| last_segment_start(s) <= j < s.len() ==> s[j] != '/',
    decreases s.len(),
{
    if s.len() > 0 && s.last() != '/' {
        lemma_last_segment_start(s.drop_last());
        assert forall|j: int| last_segment_start(s) <= j < s.len() implies s[j] != '/' by {
            if j < s.len() - 1 {
                assert(s[j] == s.drop_last()[j]);
            }
        }
    }
}

/// The span of a file name lies within the path and is not empty.
pub proof fn lemma_name_span(s: Seq<char>)
    ensures
        name_span(s) matches Some((a, b)) ==> 0 <= a < b <= s.len(),
    decreases s.len(),
{
    if s.len() > 0 {
        if s.last() == '/' {
            lemma_name_span(s.drop_last());
        } else {
            lemma_last_segment_start(s);
            let a = last_segment_start(s);
            if s.skip(a) == seq!['.'] && a != 0 {
                lemma_name_span(s.take(a));
            }
        }
    }
}

/// The start of the last segment of `v[..end]`.
fn segment_start(v: &Vec<char>, end: usize) -> (r: usize)
    requires
        end <= v@.len(),
    ensures
        r == last_segment_start(v@.take(end as int)),
{
    let mut k: usize = end;
    while k > 0 && v[k - 1] != '/'
        invariant
            k <= end <= v@.len(),
            last_segment_start(v@.take(end as int)) == last_segment_start(v@.take(k as int)),
        decreases k,
    {
        assert(v@.take(k as int).drop_last() =~= v@.take(k - 1));
        k = k - 1;
    }
    k
}

/// Where the file name of `v[..end]` lies, as [`name_span`] says.
fn name_span_exec(v: &Vec<char>, end: usize) -> (r: Option<(usize, usize)>)
    requires
        end <= v@.len(),
    ensures
        match name_span(v@.take(end as int)) {
            Some((a, b)) => r == Some((a as usize, b as usize)),
            None => r is None,
        },
    decreases end,
{
    let ghost s = v@.take(end as int);
    if end == 0 {
        return None;
    }
    if v[end - 1] == '/' {
        assert(s.drop_last() =~= v@.take(end - 1));
        return name_span_exec(v, end - 1);
    }
    let a = segment_start(v, end);
    proof {
        lemma_last_segment_start(s);
    }
    let len = end - a;
    if len == 1 && v[a] == '.' {
        assert(s.skip(a as int) =~= seq!['.']);
        if a == 0 {
            return None;
        }
        assert(s.take(a as int) =~= v@.take(a as int));
        return name_span_exec(v, a);
    }
    if len == 2 && v[a] == '.' && v[a + 1] == '.' {
        assert(s.skip(a as int) =~= seq!['.', '.']);
        return None;
    }
    assert(s.skip(a as int) != seq!['.']) by {
        if len == 1 {
            assert(s.skip(a as int)[0] == v@[a as int]);
        } else {
            assert(s.skip(a as int).len() != 1);
        }
    }
    assert(s.skip(a as int) != seq!['.', '.']) by {
        if len == 2 {
            assert(s.skip(a as int)[0] == v@[a as int]);
            assert(s.skip(a as int)[1] == v@[a + 1]);
        } else {
            assert(s.skip(a as int).len() != 2);
        }
    }
    Some((a, end))
}

/// The length of the stem of `v[a..b]`, as [`stem_len`] says.
fn stem_len_exec(v: &Vec<char>, a: usize, b: usize) -> (r: usize)
    requires
        a <= b <= v@.len(),
    ensures
        r == stem_len(v@.subrange(a as int, b as int)),
        r <= b - a,
{
    let ghost name = v@.subrange(a as int, b as int);
    let mut k: usize = b;
    while k > a && v[k - 1] != '.'
        invariant
            a <= k <= b <= v@.len(),
            name == v@.subrange(a as int, b as int),
            last_dot(name) == last_dot(v@.subrange(a as int, k as int)),
        decreases k,
    {
        assert(v@.subrange(a as int, k as int).drop_last() =~= v@.subrange(a as int, k - 1));
        k = k - 1;
    }
    proof {
        let t = v@.subrange(a as int, k as int);
        if k > a {
            assert(t.last() == '.');
            assert(last_dot(t) == Some((k - a - 1) as int));
        } else {
            assert(t.len() == 0);
        }
    }
    if k > a && k - a > 1 {
        k - 1 - a
    } else {
        b - a
    }
}

/// The file stem of `path`, as `Path::file_stem` gives it.
pub fn path_file_stem(path: &Vec<char>) -> (r: Option<Vec<char>>)
    ensures
        match file_stem(path@) {
            Some(t) => r matches Some(x) && x@ == t,
            None => r is None,
        },
{
    assert(path@.take(path@.len() as int) =~= path@);
    match name_span_exec(path, path.len()) {
        None => None,
        Some((a, b)) => {
            proof {
                lemma_name_span(path@);
            }
            let n = stem_len_exec(path, a, b);
            let mut r: Vec<char> = Vec::new();
            let mut i: usize = a;
            while i < a + n
                invariant
                    a <= i <= a + n <= b <= path@.len(),
                    r@ == path@.subrange(a as int, i as int),
                decreases a + n - i,
            {
                r.push(path[i]);
                i = i + 1;
                assert(r@ =~= path@.subrange(a as int, i as int));
            }
            Some(r)
        },
    }
}

/// `path` with its extension set to `ext`, as `Path::with_extension` gives it.
pub fn path_with_extension(path: &Vec<char>, ext: &Vec<char>) -> (r: Vec<char>)
    ensures
        r@ == with_extension(path@, ext@),
{
    assert(path@.take(path@.len() as int) =~= path@);
    match name_span_exec(path, path.len()) {
        None => path.clone(),
        Some((a, b)) => {
            proof {
                lemma_name_span(path@);
            }
            let n = stem_len_exec(path, a, b);
            let mut r: Vec<char> = Vec::new();
            let mut i: usize = 0;
            while i < a + n
                invariant
                    i <= a + n <= b <= path@.len(),
                    r@ == path@.take(i as int),
                decreases a + n - i,
            {
                r.push(path[i]);
                i = i + 1;
                assert(r@ =~= path@.take(i as int));
            }
            r.push('.');
            extend_chars(&mut r, ext);
            r
        },
    }
}

/// `base` joined with `p`, as `Path::join` gives it.
pub fn path_join(base: &Vec<char>, p: &Vec<char>) -> (r: Vec<char>)
    ensures
        r@ == join(base@, p@),
{
    if p.len() > 0 && p[0] == '/' {
        return p.clone();
    }
    let mut r = base.clone();
    if !(base.len() == 0 || base[base.len() - 1] == '/') {
        r.push('/');
    }
    extend_chars(&mut r, p);
    r
}

/// The texts held by a vector of character vectors.
pub open spec fn texts(v: Seq<Vec<char>>) -> Seq<Seq<char>> {
    v.map_values(|x: Vec<char>| x@)
}

proof fn lemma_texts_push(v: Seq<Vec<char>>, x: Vec<char>)
    ensures
        texts(v.push(x)) == texts(v).push(x@),
{
    assert(texts(v.push(x)) =~= texts(v).push(x@));
}

/// The pieces of `v` between its `/` separators, as [`segments`] says.
fn split_segments(v: &Vec<char>) -> (r: Vec<Vec<char>>)
    ensures
        texts(r@) == segments(v@),
{
    let mut out: Vec<Vec<char>> = Vec::new();
    let mut cur: Vec<char> = Vec::new();
    let mut start: usize = 0;
    let mut i: usize = 0;
    assert(v@.skip(0) =~= v@);
    while i < v.len()
        invariant
            start <= i <= v@.len(),
            cur@ == v@.subrange(start as int, i as int),
            forall|j: int| start <= j < i ==> v@[j] != '/',
            segments(v@) == texts(out@) + segments(v@.skip(start as int)),
        decreases v@.len() - i,
    {
        if v[i] == '/' {
            let ghost rest = v@.skip(start as int);
            proof {
                lemma_find_char(rest, '/');
                assert(rest[i - start] == '/');
                assert forall|j: int| 0 <= j < i - start implies rest[j] != '/' by {
                    assert(rest[j] == v@[j + start]);
                }
                assert(find_char(rest, '/') == Some((i - start) as int));
                assert(rest.take(i - start) =~= cur@);
                assert(rest.skip(i - start + 1) =~= v@.skip(i + 1));
                lemma_texts_push(out@, cur);
                assert(segments(rest) == seq![cur@] + segments(v@.skip(i + 1)));
                assert(texts(out@) + seq![cur@] =~= texts(out@).push(cur@));
                assert(texts(out@) + segments(rest) =~= texts(out@).push(cur@) + segments(
                    v@.skip(i + 1),
                ));
            }
            out.push(cur);
            cur = Vec::new();
            i = i + 1;
            start = i;
            assert(cur@ =~= v@.subrange(start as int, i as int));
        } else {
            cur.push(v[i]);
            i = i + 1;
            assert(cur@ =~= v@.subrange(start as int, i as int));
        }
    }
    proof {
        let rest = v@.skip(start as int);
        lemma_find_char(rest, '/');
        assert forall|j: int| 0 <= j < rest.len() implies rest[j] != '/' by {
            assert(rest[j] == v@[j + start]);
        }
        assert(find_char(rest, '/') is None);
        assert(rest =~= cur@);
        lemma_texts_push(out@, cur);
        assert(texts(out@) + seq![cur@] =~= texts(out@).push(cur@));
    }
    out.push(cur);
    out
}

/// The segments of `segs` that name components, as [`named`] says.
fn named_segments(segs: Vec<Vec<char>>) -> (r: Vec<Vec<char>>)
    ensures
        texts(r@) == named(texts(segs@)),
{
    let ghost all = texts(segs@);
    let dot: Vec<char> = vec!['.'];
    let mut out: Vec<Vec<char>> = Vec::new();
    let mut i: usize = 0;
    assert(all.skip(0) =~= all);
    while i < segs.len()
        invariant
            i <= segs@.len(),
            all == texts(segs@),
            dot@ == seq!['.'],
            named(all) == texts(out@) + named(all.skip(i as int)),
        decreases segs@.len() - i,
    {
        let seg = &segs[i];
        let keep = seg.len() > 0 && !chars_equal(seg, &dot);
        proof {
            let rest = all.skip(i as int);
            assert(rest[0] == seg@);
            assert(rest.drop_first() =~= all.skip(i + 1));
            assert(keep == is_named(rest[0]));
        }
        if keep {
            proof {
                lemma_texts_push(out@, *seg);
                assert(texts(out@) + (seq![seg@] + named(all.skip(i + 1))) =~= texts(out@).push(
                    seg@,
                ) + named(all.skip(i + 1)));
            }
            out.push(seg.clone());
        }
        i = i + 1;
    }
    assert(all.skip(segs@.len() as int) =~= Seq::<Seq<char>>::empty());
    assert(texts(out@) + Seq::<Seq<char>>::empty() =~= texts(out@));
    out
}

/// The components of `v`, as [`components`] says.
pub fn path_components(v: &Vec<char>) -> (r: Vec<Vec<char>>)
    ensures
        texts(r@) == components(v@),
{
    let segs = split_segments(v);
    proof {
        lemma_find_char(v@, '/');
    }
    assert(segments(v@).len() > 0);
    let dot: Vec<char> = vec!['.'];
    assert(dot@ =~= seq!['.']);
    let first_is_dot = chars_equal(&segs[0], &dot);
    assert(segments(v@)[0] == segs@[0]@);
    let named_parts = named_segments(segs);
    let mut out: Vec<Vec<char>> = Vec::new();
    if v.len() > 0 && v[0] == '/' {
        let root: Vec<char> = vec!['/'];
        assert(root@ =~= seq!['/']);
        proof {
            lemma_texts_push(out@, root);
        }
        out.push(root);
        assert(texts(out@) =~= seq![seq!['/']]);
    } else if first_is_dot {
        proof {
            lemma_texts_push(out@, dot);
        }
        out.push(dot);
        assert(texts(out@) =~= seq![seq!['.']]);
    } else {
        assert(texts(out@) =~= Seq::<Seq<char>>::empty());
    }
    let ghost head = texts(out@);
    let mut i: usize = 0;
    while i < named_parts.len()
        invariant
            i <= named_parts@.len(),
            texts(out@) == head + texts(named_parts@).take(i as int),
        decreases named_parts@.len() - i,
    {
        proof {
            lemma_texts_push(out@, named_parts@[i as int]);
        }
        out.push(named_parts[i].clone());
        i = i + 1;
        assert(texts(named_parts@).take(i as int) =~= texts(named_parts@).take(i - 1).push(
            named_parts@[i - 1]@,
        ));
        assert(texts(out@) =~= head + texts(named_parts@).take(i as int));
    }
    assert(texts(named_parts@).take(named_parts@.len() as int) =~= texts(named_parts@));
    assert(texts(Seq::<Vec<char>>::empty()) =~= Seq::<Seq<char>>::empty());
    out
}

/// The category title of the directory at `path`, as [`category_title`] says:
/// `None` when the path does not lie below the amiibo root.
pub fn path_category_title(path: &Vec<char>) -> (r: Option<Vec<char>>)
    ensures
        match category_title(path@) {
            Some(t) => r matches Some(x) && x@ == t,
            None => r is None,
        },
{
    let comps = path_components(path);
    let ghost c = components(path@);
    let public: Vec<char> = vec!['p', 'u', 'b', 'l', 'i', 'c'];
    let amiibo: Vec<char> = vec!['a', 'm', 'i', 'i', 'b', 'o'];
    if comps.len() < 2 {
        return None;
    }
    let first = chars_equal(&comps[0], &public);
    let second = chars_equal(&comps[1], &amiibo);
    assert(c[0] == comps@[0]@ && c[1] == comps@[1]@);
    if !(first && second) {
        assert(c.take(2) != amiibo_root_components()) by {
            if c.take(2) == amiibo_root_components() {
                assert(c.take(2)[0] == c[0]);
                assert(c.take(2)[1] == c[1]);
            }
        }
        return None;
    }
    assert(c.take(2) =~= amiibo_root_components());
    let ghost rest = c.skip(2);
    let mut out: Vec<char> = Vec::new();
    let mut i: usize = 2;
    assert(c.skip(2) =~= rest.skip(0));
    while i < comps.len()
        invariant
            2 <= i <= comps@.len(),
            c == texts(comps@),
            rest == c.skip(2),
            spaced(rest) == out@ + spaced(c.skip(i as int)),
        decreases comps@.len() - i,
    {
        proof {
            assert(c.skip(i as int)[0] == comps@[i as int]@);
            assert(c.skip(i as int).drop_first() =~= c.skip(i + 1));
        }
        extend_chars(&mut out, &comps[i]);
        out.push(' ');
        i = i + 1;
        assert(out@ + spaced(c.skip(i as int)) =~= (out@.drop_last() + seq![' ']) + spaced(
            c.skip(i as int),
        ));
    }
    assert(c.skip(i as int).len() == 0);
    assert(out@ + Seq::<char>::empty() =~= out@);
    Some(out)
}

} // verus!
