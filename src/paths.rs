use vstd::prelude::*;

use crate::error::ErrorKind;

verus! {

/// The byte that separates path components.
pub const SEP: u8 = 0x2f;

/// The byte `.`.
pub const DOT: u8 = 0x2e;

/// A component that names the directory itself.
pub open spec fn is_current(c: Seq<u8>) -> bool {
    c.len() == 0 || c == seq![DOT]
}

/// A component that names the parent directory.
pub open spec fn is_parent(c: Seq<u8>) -> bool {
    c == seq![DOT, DOT]
}

/// A component that names an entry of the directory it stands in.
pub open spec fn is_plain(c: Seq<u8>) -> bool {
    &&& !is_current(c)
    &&& !is_parent(c)
    &&& forall|i: int| 0 <= i < c.len() ==> c[i] != SEP
}

/// Applies one component to the stack of directories entered below the root;
/// `None` once the path has climbed above the root.
pub open spec fn enter(st: Option<Seq<Seq<u8>>>, c: Seq<u8>) -> Option<Seq<Seq<u8>>> {
    match st {
        None => None,
        Some(stack) => if is_current(c) {
            Some(stack)
        } else if is_parent(c) {
            if stack.len() == 0 {
                None
            } else {
                Some(stack.drop_last())
            }
        } else {
            Some(stack.push(c))
        },
    }
}

/// Reads `p` from the left: the stack after every completed component, and
/// the component still being read.
pub open spec fn walk(p: Seq<u8>) -> (Option<Seq<Seq<u8>>>, Seq<u8>)
    decreases p.len(),
{
    if p.len() == 0 {
        (Some(Seq::empty()), Seq::empty())
    } else {
        let (st, cur) = walk(p.drop_last());
        if p.last() == SEP {
            (enter(st, cur), Seq::empty())
        } else {
            (st, cur.push(p.last()))
        }
    }
}

/// The components of `p` below the root once `.` and `..` are resolved, or
/// `None` where `p` climbs above the root. A leading separator is read as
/// the root itself.
pub open spec fn resolve(p: Seq<u8>) -> Option<Seq<Seq<u8>>> {
    enter(walk(p).0, walk(p).1)
}

/// The components written out with a separator between each two.
pub open spec fn join(parts: Seq<Seq<u8>>) -> Seq<u8>
    decreases parts.len(),
{
    if parts.len() == 0 {
        Seq::empty()
    } else if parts.len() == 1 {
        parts[0]
    } else {
        join(parts.drop_last()) + seq![SEP] + parts.last()
    }
}

pub open spec fn views(v: Seq<Vec<u8>>) -> Seq<Seq<u8>> {
    v.map_values(|x: Vec<u8>| x@)
}

fn is_current_exec(c: &Vec<u8>) -> (r: bool)
    ensures
        r == is_current(c@),
{
    if c.len() == 0 {
        true
    } else if c.len() == 1 {
        assert(c@ == seq![DOT] <==> c@[0] == DOT) by {
            if c@[0] == DOT {
                assert(c@ =~= seq![DOT]);
            }
        }
        c[0] == DOT
    } else {
        false
    }
}

fn is_parent_exec(c: &Vec<u8>) -> (r: bool)
    ensures
        r == is_parent(c@),
{
    if c.len() == 2 {
        assert(c@ == seq![DOT, DOT] <==> (c@[0] == DOT && c@[1] == DOT)) by {
            if c@[0] == DOT && c@[1] == DOT {
                assert(c@ =~= seq![DOT, DOT]);
            }
        }
        c[0] == DOT && c[1] == DOT
    } else {
        false
    }
}

/// Applies one completed component to `stack`; `false` where it climbs above
/// the root.
fn enter_exec(stack: &mut Vec<Vec<u8>>, c: Vec<u8>) -> (ok: bool)
    ensures
        ok ==> enter(Some(views(old(stack)@)), c@) == Some(views(final(stack)@)),
        !ok ==> enter(Some(views(old(stack)@)), c@) is None,
{
    let ghost c_view = c@;
    if is_current_exec(&c) {
        true
    } else if is_parent_exec(&c) {
        if stack.len() == 0 {
            false
        } else {
            let _ = stack.pop();
            assert(views(final(stack)@) =~= views(old(stack)@).drop_last());
            true
        }
    } else {
        stack.push(c);
        assert(views(final(stack)@) =~= views(old(stack)@).push(c_view));
        true
    }
}

/// Once a path has climbed above the root, nothing that follows brings it
/// back: the whole path is refused.
pub proof fn lemma_escape_is_final(p: Seq<u8>, t: Seq<u8>)
    requires
        walk(p).0 is None,
    ensures
        walk(p + t).0 is None,
        resolve(p + t) is None,
    decreases t.len(),
{
    if t.len() == 0 {
        assert(p + t =~= p);
    } else {
        lemma_escape_is_final(p, t.drop_last());
        assert((p + t).drop_last() =~= p + t.drop_last());
    }
}

/// Every stack that a walk reaches holds plain components only, and the
/// component being read holds no separator.
pub proof fn lemma_walk_plain(p: Seq<u8>)
    ensures
        walk(p).0 is Some ==> forall|i: int|
            0 <= i < walk(p).0->Some_0.len() ==> is_plain(#[trigger] walk(p).0->Some_0[i]),
        forall|i: int| 0 <= i < walk(p).1.len() ==> walk(p).1[i] != SEP,
    decreases p.len(),
{
    if p.len() > 0 {
        lemma_walk_plain(p.drop_last());
        let (st, cur) = walk(p.drop_last());
        if p.last() != SEP {
            assert forall|i: int| 0 <= i < walk(p).1.len() implies walk(p).1[i] != SEP by {
                if i < cur.len() {
                    assert(walk(p).1[i] == cur[i]);
                }
            }
        }
    }
}

/// A path that is accepted names an entry at or below the root: every
/// component of the result is a plain name, never `.`, `..`, or empty.
pub proof fn lemma_resolved_stays_below_root(p: Seq<u8>)
    ensures
        resolve(p) is Some ==> forall|i: int|
            0 <= i < resolve(p)->Some_0.len() ==> is_plain(#[trigger] resolve(p)->Some_0[i]),
{
    lemma_walk_plain(p);
}

/// Where the archive entry `path` lands below the extraction root, with `.`
/// and `..` resolved and leading separators dropped; refused with
/// `Extraction` where it climbs above the root at any point.
pub fn resolve_entry_path(path: &[u8]) -> (r: Result<Vec<u8>, ErrorKind>)
    ensures
        resolve(path@) is Some <==> r is Ok,
        r is Ok ==> r->Ok_0@ == join(resolve(path@)->Some_0),
        r is Err ==> r->Err_0 == ErrorKind::Extraction,
{
    let mut stack: Vec<Vec<u8>> = Vec::new();
    let mut cur: Vec<u8> = Vec::new();
    let mut i: usize = 0;
    while i < path.len()
        invariant
            i <= path@.len(),
            walk(path@.take(i as int)) == (Some(views(stack@)), cur@),
        decreases path@.len() - i,
    {
        let ghost prefix = path@.take(i as int);
        assert(path@.take(i + 1).drop_last() =~= prefix);
        let b = path[i];
        if b == SEP {
            let c = cur;
            cur = Vec::new();
            if !enter_exec(&mut stack, c) {
                proof {
                    lemma_escape_is_final(path@.take(i + 1), path@.skip(i + 1));
                    assert(path@.take(i + 1) + path@.skip(i + 1) =~= path@);
                }
                return Err(ErrorKind::Extraction);
            }
        } else {
            cur.push(b);
        }
        i = i + 1;
    }
    assert(path@.take(i as int) =~= path@);
    if !enter_exec(&mut stack, cur) {
        return Err(ErrorKind::Extraction);
    }
    Ok(join_exec(&stack))
}

/// The components written out with a separator between each two.
fn join_exec(parts: &Vec<Vec<u8>>) -> (r: Vec<u8>)
    ensures
        r@ == join(views(parts@)),
{
    let mut out: Vec<u8> = Vec::new();
    let mut j: usize = 0;
    while j < parts.len()
        invariant
            j <= parts@.len(),
            out@ == join(views(parts@).take(j as int)),
        decreases parts@.len() - j,
    {
        let ghost before = out@;
        assert(views(parts@).take(j + 1).drop_last() =~= views(parts@).take(j as int));
        if j > 0 {
            out.push(SEP);
        }
        out.extend_from_slice(parts[j].as_slice());
        proof {
            if j == 0 {
                assert(out@ =~= views(parts@).take(1)[0]);
            } else {
                assert(out@ =~= before + seq![SEP] + views(parts@)[j as int]);
            }
        }
        j = j + 1;
    }
    assert(views(parts@).take(j as int) =~= views(parts@));
    out
}

/// Where the executable at the absolute path `exe` is placed below the root:
/// its components with `.` and `..` resolved. Refused with `Setup` where
/// `exe` is not absolute, names the root itself or climbs above it.
pub fn executable_destination(exe: &[u8]) -> (r: Result<Vec<u8>, ErrorKind>)
    ensures
        r is Ok <==> (exe@.len() > 0 && exe@[0] == SEP && resolve(exe@) is Some
            && resolve(exe@)->Some_0.len() > 0),
        r is Ok ==> r->Ok_0@ == join(resolve(exe@)->Some_0),
        r is Err ==> r->Err_0 == ErrorKind::Setup,
{
    if exe.len() == 0 || exe[0] != SEP {
        return Err(ErrorKind::Setup);
    }
    match resolve_entry_path(exe) {
        Ok(dest) => {
            if dest.len() == 0 {
                proof {
                    lemma_resolved_stays_below_root(exe@);
                    lemma_join_empty(resolve(exe@)->Some_0);
                }
                Err(ErrorKind::Setup)
            } else {
                proof {
                    if resolve(exe@)->Some_0.len() == 0 {
                        assert(join(resolve(exe@)->Some_0).len() == 0);
                    }
                }
                Ok(dest)
            }
        },
        Err(_) => Err(ErrorKind::Setup),
    }
}

/// Components that are all plain join to something non-empty, unless there
/// are none.
proof fn lemma_join_empty(parts: Seq<Seq<u8>>)
    requires
        forall|i: int| 0 <= i < parts.len() ==> is_plain(#[trigger] parts[i]),
    ensures
        join(parts).len() == 0 ==> parts.len() == 0,
    decreases parts.len(),
{
    if parts.len() > 1 {
        lemma_join_empty(parts.drop_last());
    }
}

} // verus!
