//! Unix path semantics (`std::path` on Unix) for workspace sandboxing: joining,
//! components, prefix tests, prefix stripping, parent and file name.
use vstd::prelude::*;
use crate::text::{chars_of, string_of, chars_eq, views, contains_char};

verus! {

/// The `/`-separated pieces of a path after the state machine has read `p`:
/// finished pieces and the piece being read.
pub open spec fn seg_state(p: Seq<char>) -> (Seq<Seq<char>>, Seq<char>)
    decreases p.len(),
{
    if p.len() == 0 {
        (Seq::empty(), Seq::empty())
    } else {
        let (d, cur) = seg_state(p.drop_last());
        if p.last() == '/' {
            (d.push(cur), Seq::empty())
        } else {
            (d, cur.push(p.last()))
        }
    }
}

/// The text between separators, empty pieces included (`"/a//b"` gives
/// `["", "a", "", "b"]`).
pub open spec fn raw_segments(p: Seq<char>) -> Seq<Seq<char>> {
    seg_state(p).0.push(seg_state(p).1)
}

/// The pieces that are neither empty nor `.`.
pub open spec fn normal_segs(raw: Seq<Seq<char>>) -> Seq<Seq<char>>
    decreases raw.len(),
{
    if raw.len() == 0 {
        Seq::empty()
    } else {
        let f = normal_segs(raw.drop_last());
        if raw.last().len() == 0 || raw.last() == seq!['.'] {
            f
        } else {
            f.push(raw.last())
        }
    }
}

pub open spec fn is_absolute(p: Seq<char>) -> bool {
    p.len() > 0 && p[0] == '/'
}

/// `Path::components` on Unix, each component as text: the root as `/`, a
/// leading current directory as `.`, then every non-empty piece other than `.`.
pub open spec fn components(p: Seq<char>) -> Seq<Seq<char>> {
    let raw = raw_segments(p);
    let head: Seq<Seq<char>> = if is_absolute(p) {
        seq![seq!['/']]
    } else if raw[0] == seq!['.'] {
        seq![seq!['.']]
    } else {
        Seq::empty()
    };
    head + normal_segs(raw)
}

/// `Path::starts_with`: the components of `base` begin the components of `p`.
pub open spec fn path_starts_with(p: Seq<char>, base: Seq<char>) -> bool {
    let a = components(p);
    let b = components(base);
    b.len() <= a.len() && a.take(b.len() as int) == b
}

/// The pieces joined with `/`.
pub open spec fn join_with_slash(parts: Seq<Seq<char>>) -> Seq<char>
    decreases parts.len(),
{
    if parts.len() == 0 {
        Seq::empty()
    } else if parts.len() == 1 {
        parts[0]
    } else {
        join_with_slash(parts.drop_last()) + seq!['/'] + parts.last()
    }
}

/// A path built from components: the root component renders as the leading `/`.
pub open spec fn render(comps: Seq<Seq<char>>) -> Seq<char> {
    if comps.len() > 0 && comps[0] == seq!['/'] {
        seq!['/'] + join_with_slash(comps.drop_first())
    } else {
        join_with_slash(comps)
    }
}

/// `Path::join` (`PathBuf::push`) on Unix: an absolute `p` replaces `base`;
/// otherwise a separator is added unless `base` is empty or already ends in one.
pub open spec fn path_join(base: Seq<char>, p: Seq<char>) -> Seq<char> {
    if is_absolute(p) {
        p
    } else if base.len() == 0 || base.last() == '/' {
        base + p
    } else {
        base + seq!['/'] + p
    }
}

/// `Path::strip_prefix`, the remaining components rendered as a path.
pub open spec fn path_strip_prefix(p: Seq<char>, base: Seq<char>) -> Option<Seq<char>> {
    if path_starts_with(p, base) {
        Some(render(components(p).skip(components(base).len() as int)))
    } else {
        None
    }
}

/// `Path::parent`: the path without its last component, unless the path is
/// empty or ends in the root.
pub open spec fn path_parent(p: Seq<char>) -> Option<Seq<char>> {
    let c = components(p);
    if c.len() == 0 || c.last() == seq!['/'] {
        None
    } else {
        Some(render(c.drop_last()))
    }
}

/// `Path::file_name`: the last component when it is a normal name.
pub open spec fn path_file_name(p: Seq<char>) -> Option<Seq<char>> {
    let c = components(p);
    if c.len() == 0 || c.last() == seq!['/'] || c.last() == seq!['.'] || c.last() == seq!['.', '.'] {
        None
    } else {
        Some(c.last())
    }
}

fn raw_segments_exec(p: &[char]) -> (r: Vec<Vec<char>>)
    ensures
        views(r@) == raw_segments(p@),
{
    let mut done: Vec<Vec<char>> = Vec::new();
    let mut cur: Vec<char> = Vec::new();
    let mut i: usize = 0;
    while i < p.len()
        invariant
            i <= p.len(),
            views(done@) == seg_state(p@.take(i as int)).0,
            cur@ == seg_state(p@.take(i as int)).1,
        decreases p.len() - i,
    {
        proof {
            assert(p@.take(i + 1).drop_last() == p@.take(i as int));
            assert(p@.take(i + 1).last() == p@[i as int]);
        }
        if p[i] == '/' {
            let ghost old_done = done@;
            let ghost old_cur = cur@;
            done.push(cur);
            cur = Vec::new();
            proof {
                assert(views(done@) =~= views(old_done).push(old_cur));
                assert(cur@ =~= Seq::<char>::empty());
            }
        } else {
            cur.push(p[i]);
        }
        i += 1;
    }
    proof {
        assert(p@.take(p.len() as int) == p@);
    }
    let ghost old_done = done@;
    let ghost cur_v = cur@;
    done.push(cur);
    proof {
        assert(views(done@) =~= views(old_done).push(cur_v));
    }
    done
}

fn is_dot(s: &Vec<char>) -> (r: bool)
    ensures
        r == (s@ == seq!['.']),
{
    let r = s.len() == 1 && s[0] == '.';
    proof {
        if s.len() == 1 && s[0] == '.' {
            assert(s@ =~= seq!['.']);
        }
    }
    r
}

fn normal_segs_exec(raw: Vec<Vec<char>>) -> (r: Vec<Vec<char>>)
    ensures
        views(r@) == normal_segs(views(raw@)),
{
    let mut out: Vec<Vec<char>> = Vec::new();
    let mut i: usize = 0;
    while i < raw.len()
        invariant
            i <= raw.len(),
            views(out@) == normal_segs(views(raw@).take(i as int)),
        decreases raw.len() - i,
    {
        let s = raw[i].clone();
        proof {
            assert(views(raw@).take(i + 1).drop_last() =~= views(raw@).take(i as int));
            assert(views(raw@).take(i + 1).last() == raw@[i as int]@);
        }
        if !(s.len() == 0 || is_dot(&s)) {
            let ghost old_out = out@;
            out.push(s);
            proof {
                assert(views(out@) =~= views(old_out).push(s@));
            }
        }
        i += 1;
    }
    proof {
        assert(views(raw@).take(raw.len() as int) =~= views(raw@));
    }
    out
}

/// `Path::components` on Unix, each component as characters.
pub fn components_exec(p: &[char]) -> (r: Vec<Vec<char>>)
    ensures
        views(r@) == components(p@),
{
    let raw = raw_segments_exec(p);
    proof {
        assert(raw@.len() > 0) by {
            assert(views(raw@).len() == raw_segments(p@).len());
        }
    }
    let absolute = p.len() > 0 && p[0] == '/';
    let first_dot = is_dot(&raw[0]);
    proof {
        assert(raw@[0]@ == raw_segments(p@)[0]);
    }
    let mut head: Vec<Vec<char>> = Vec::new();
    if absolute {
        let mut s = Vec::new();
        s.push('/');
        head.push(s);
    } else if first_dot {
        let mut s = Vec::new();
        s.push('.');
        head.push(s);
    }
    let ghost hv = views(head@);
    let body = normal_segs_exec(raw);
    let mut i: usize = 0;
    while i < body.len()
        invariant
            i <= body.len(),
            views(head@) == hv + views(body@).take(i as int),
        decreases body.len() - i,
    {
        let ghost old_head = head@;
        head.push(body[i].clone());
        proof {
            assert(views(head@) =~= views(old_head).push(body@[i as int]@));
            assert(views(body@).take(i + 1) =~= views(body@).take(i as int).push(body@[i as int]@));
        }
        i += 1;
    }
    proof {
        assert(views(body@).take(body.len() as int) =~= views(body@));
        let raw_v = raw_segments(p@);
        if absolute {
            assert(hv =~= seq![seq!['/']]);
        } else if first_dot {
            assert(hv =~= seq![seq!['.']]);
        } else {
            assert(hv =~= Seq::<Seq<char>>::empty());
        }
    }
    head
}

fn comps_eq(a: &Vec<char>, b: &Vec<char>) -> (r: bool)
    ensures
        r == (a@ == b@),
{
    chars_eq(a.as_slice(), b.as_slice())
}

/// `Path::starts_with`.
pub fn starts_with_path(p: &str, base: &str) -> (r: bool)
    ensures
        r == path_starts_with(p@, base@),
{
    let pc = chars_of(p);
    let bc = chars_of(base);
    let a = components_exec(pc.as_slice());
    let b = components_exec(bc.as_slice());
    if b.len() > a.len() {
        return false;
    }
    let mut i: usize = 0;
    while i < b.len()
        invariant
            i <= b.len() <= a.len(),
            views(a@) == components(p@),
            views(b@) == components(base@),
            forall|j: int| 0 <= j < i ==> a@[j]@ == b@[j]@,
        decreases b.len() - i,
    {
        if !comps_eq(&a[i], &b[i]) {
            proof {
                assert(views(a@).take(b.len() as int)[i as int] != views(b@)[i as int]);
            }
            return false;
        }
        i += 1;
    }
    assert(views(a@).take(b.len() as int) =~= views(b@));
    true
}

fn join_slash_exec(parts: &[Vec<char>], out: &mut Vec<char>)
    ensures
        final(out)@ == old(out)@ + join_with_slash(views(parts@)),
{
    let mut i: usize = 0;
    let ghost o = out@;
    while i < parts.len()
        invariant
            i <= parts.len(),
            out@ == o + join_with_slash(views(parts@).take(i as int)),
        decreases parts.len() - i,
    {
        let ghost before = out@;
        if i > 0 {
            out.push('/');
        }
        let p = &parts[i];
        let mut k: usize = 0;
        while k < p.len()
            invariant
                k <= p.len(),
                out@ == before + (if i > 0 { seq!['/'] } else { Seq::<char>::empty() }) + p@.take(k as int),
            decreases p.len() - k,
        {
            out.push(p[k]);
            proof {
                assert(p@.take(k + 1) =~= p@.take(k as int).push(p@[k as int]));
            }
            k += 1;
        }
        proof {
            assert(p@.take(p.len() as int) == p@);
            let vs = views(parts@).take(i + 1);
            assert(vs.drop_last() =~= views(parts@).take(i as int));
            assert(vs.last() == p@);
            if i == 0 {
                assert(join_with_slash(vs) == p@);
                assert(join_with_slash(views(parts@).take(0)) =~= Seq::<char>::empty());
                assert(out@ =~= o + p@);
            } else {
                assert(out@ =~= o + join_with_slash(vs.drop_last()) + seq!['/'] + p@);
            }
        }
        i += 1;
    }
    proof {
        assert(views(parts@).take(parts.len() as int) =~= views(parts@));
    }
}

/// A path built from components.
pub fn render_exec(comps: &[Vec<char>]) -> (r: Vec<char>)
    ensures
        r@ == render(views(comps@)),
{
    let mut out: Vec<char> = Vec::new();
    if comps.len() > 0 && comps[0].len() == 1 && comps[0][0] == '/' {
        proof {
            assert(comps@[0]@ =~= seq!['/']);
        }
        out.push('/');
        let rest = slice_vecs(comps, 1);
        join_slash_exec(rest.as_slice(), &mut out);
        proof {
            assert(views(rest@) =~= views(comps@).drop_first());
        }
    } else {
        proof {
            if comps@.len() > 0 && comps@[0]@ == seq!['/'] {
                assert(comps@[0]@.len() == 1);
            }
        }
        join_slash_exec(comps, &mut out);
        proof {
            assert(out@ =~= join_with_slash(views(comps@)));
        }
    }
    out
}

fn slice_vecs(v: &[Vec<char>], from: usize) -> (r: Vec<Vec<char>>)
    requires
        from <= v.len(),
    ensures
        views(r@) == views(v@).skip(from as int),
{
    let mut r: Vec<Vec<char>> = Vec::new();
    let mut i = from;
    while i < v.len()
        invariant
            from <= i <= v.len(),
            views(r@) == views(v@).subrange(from as int, i as int),
        decreases v.len() - i,
    {
        let ghost old_r = r@;
        r.push(v[i].clone());
        proof {
            assert(views(r@) =~= views(old_r).push(v@[i as int]@));
            assert(views(v@).subrange(from as int, i + 1) =~= views(v@).subrange(from as int, i as int).push(v@[i as int]@));
        }
        i += 1;
    }
    r
}

/// `Path::join`.
pub fn join_path(base: &str, p: &str) -> (r: String)
    ensures
        r@ == path_join(base@, p@),
{
    let b = chars_of(base);
    let mut pc = chars_of(p);
    if pc.len() > 0 && pc[0] == '/' {
        return string_of(pc.as_slice());
    }
    let mut out = b;
    if !(out.len() == 0 || out[out.len() - 1] == '/') {
        out.push('/');
    }
    let ghost o = out@;
    let mut i: usize = 0;
    while i < pc.len()
        invariant
            i <= pc.len(),
            pc@ == p@,
            out@ == o + pc@.take(i as int),
        decreases pc.len() - i,
    {
        out.push(pc[i]);
        proof {
            assert(pc@.take(i + 1) =~= pc@.take(i as int).push(pc@[i as int]));
        }
        i += 1;
    }
    proof {
        assert(pc@.take(pc.len() as int) == pc@);
    }
    string_of(out.as_slice())
}

/// `Path::strip_prefix`, rendered as a path.
pub fn strip_prefix_path(p: &str, base: &str) -> (r: Option<String>)
    ensures
        match r {
            Some(s) => path_strip_prefix(p@, base@) == Some(s@),
            None => path_strip_prefix(p@, base@) is None,
        },
{
    if !starts_with_path(p, base) {
        return None;
    }
    let pc = chars_of(p);
    let bc = chars_of(base);
    let a = components_exec(pc.as_slice());
    let b = components_exec(bc.as_slice());
    proof {
        assert(views(a@).len() == components(p@).len());
        assert(views(b@).len() == components(base@).len());
    }
    let rest = slice_vecs(a.as_slice(), b.len());
    let r = render_exec(rest.as_slice());
    Some(string_of(r.as_slice()))
}

/// `Path::parent` and `Path::file_name` of the same path.
pub fn parent_and_file_name(p: &str) -> (r: (Option<String>, Option<String>))
    ensures
        match r.0 {
            Some(s) => path_parent(p@) == Some(s@),
            None => path_parent(p@) is None,
        },
        match r.1 {
            Some(s) => path_file_name(p@) == Some(s@),
            None => path_file_name(p@) is None,
        },
{
    let pc = chars_of(p);
    let c = components_exec(pc.as_slice());
    if c.len() == 0 {
        return (None, None);
    }
    let last = &c[c.len() - 1];
    proof {
        assert(last@ == components(p@).last());
    }
    let is_root = last.len() == 1 && last[0] == '/';
    let is_cur = last.len() == 1 && last[0] == '.';
    let is_par = last.len() == 2 && last[0] == '.' && last[1] == '.';
    proof {
        if is_root { assert(last@ =~= seq!['/']); }
        if is_cur { assert(last@ =~= seq!['.']); }
        if is_par { assert(last@ =~= seq!['.', '.']); }
        if last@ == seq!['/'] || last@ == seq!['.'] { assert(last@.len() == 1); }
        if last@ == seq!['.', '.'] { assert(last@.len() == 2); }
    }
    let parent = if is_root {
        None
    } else {
        let front = slice_vecs_prefix(c.as_slice(), c.len() - 1);
        let r = render_exec(front.as_slice());
        proof {
            assert(views(front@) =~= components(p@).drop_last());
        }
        Some(string_of(r.as_slice()))
    };
    let name = if is_root || is_cur || is_par {
        None
    } else {
        Some(string_of(last.as_slice()))
    };
    (parent, name)
}

fn slice_vecs_prefix(v: &[Vec<char>], to: usize) -> (r: Vec<Vec<char>>)
    requires
        to <= v.len(),
    ensures
        views(r@) == views(v@).take(to as int),
{
    let mut r: Vec<Vec<char>> = Vec::new();
    let mut i: usize = 0;
    while i < to
        invariant
            i <= to <= v.len(),
            views(r@) == views(v@).take(i as int),
        decreases to - i,
    {
        let ghost old_r = r@;
        r.push(v[i].clone());
        proof {
            assert(views(r@) =~= views(old_r).push(v@[i as int]@));
            assert(views(v@).take(i + 1) =~= views(v@).take(i as int).push(v@[i as int]@));
        }
        i += 1;
    }
    r
}

} // verus!
