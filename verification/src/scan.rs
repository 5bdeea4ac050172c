use crate::archive::Archive;
use vstd::prelude::*;

verus! {

/// What a folder search does with one of a folder's entries.
#[derive(Debug, Clone, Copy, PartialEq, Eq, Structural)]
pub enum WalkStep {
    /// Search the entry, a folder, in turn.
    Descend,
    /// Keep the entry as a candidate.
    Keep,
}

/// Subfolders are searched in turn when the search is recursive; every other
/// entry, a subfolder of a flat search too, is a candidate.
pub fn walk_step(is_dir: bool, recursion: bool) -> (r: WalkStep)
    ensures
        r == if is_dir && recursion {
            WalkStep::Descend
        } else {
            WalkStep::Keep
        },
{
    if is_dir && recursion {
        WalkStep::Descend
    } else {
        WalkStep::Keep
    }
}

/// The outcome of examining candidates in order: the archives found, or the
/// first error met.
pub open spec fn gathered<E>(found: Seq<Result<Option<Archive>, E>>) -> Result<Seq<Archive>, E>
    decreases found.len(),
{
    if found.len() == 0 {
        Ok(Seq::empty())
    } else {
        match found[0] {
            Err(e) => Err(e),
            Ok(item) => match gathered(found.drop_first()) {
                Err(e) => Err(e),
                Ok(rest) => Ok(
                    match item {
                        Some(a) => seq![a] + rest,
                        None => rest,
                    },
                ),
            },
        }
    }
}

/// Archives already found, followed by the outcome of the rest.
pub open spec fn joined<E>(done: Seq<Archive>, rest: Result<Seq<Archive>, E>) -> Result<
    Seq<Archive>,
    E,
> {
    match rest {
        Ok(r) => Ok(done + r),
        Err(e) => Err(e),
    }
}

/// Gathers the archives found among the candidates, in order, stopping at
/// the first error.
pub fn collect_archives<E>(found: Vec<Result<Option<Archive>, E>>) -> (r: Result<Vec<Archive>, E>)
    ensures
        r matches Ok(v) ==> gathered(found@) == Ok::<Seq<Archive>, E>(v@),
        r matches Err(e) ==> gathered(found@) == Err::<Seq<Archive>, E>(e),
{
    let ghost input = found@;
    let mut rest = found;
    let mut done: Vec<Archive> = Vec::new();
    assert(done@ + Seq::<Archive>::empty() =~= done@);
    while rest.len() > 0
        invariant
            gathered(input) == joined(done@, gathered(rest@)),
            input == found@,
        decreases rest.len(),
    {
        let ghost before = rest@;
        let item = rest.remove(0);
        assert(rest@ =~= before.drop_first());
        assert(item == before[0]);
        match item {
            Err(e) => {
                assert(gathered(before) == Err::<Seq<Archive>, E>(e));
                return Err(e);
            },
            Ok(Some(a)) => {
                let ghost d = done@;
                done.push(a);
                proof {
                    match gathered(rest@) {
                        Ok(r) => {
                            assert(d + (seq![a] + r) =~= done@ + r);
                        },
                        Err(_) => {},
                    }
                }
            },
            Ok(None) => {},
        }
    }
    assert(done@ + Seq::<Archive>::empty() =~= done@);
    Ok(done)
}


/// Examining no candidates finds no archives.
pub proof fn lemma_gathered_empty<E>()
    ensures
        gathered(Seq::<Result<Option<Archive>, E>>::empty()) == Ok::<Seq<Archive>, E>(
            Seq::empty(),
        ),
{
}

/// One more candidate examined without error: an archive is appended to
/// those found, a non-archive adds nothing, and an earlier error stays.
pub proof fn lemma_gathered_push<E>(found: Seq<Result<Option<Archive>, E>>, item: Option<Archive>)
    ensures
        gathered(found.push(Ok(item))) == match gathered(found) {
            Err(e) => Err(e),
            Ok(v) => Ok(
                match item {
                    Some(a) => v.push(a),
                    None => v,
                },
            ),
        },
    decreases found.len(),
{
    let s = found.push(Ok(item));
    if found.len() == 0 {
        assert(s.drop_first() =~= Seq::<Result<Option<Archive>, E>>::empty());
        match item {
            Some(a) => assert(seq![a] + Seq::<Archive>::empty() =~= Seq::<Archive>::empty().push(a)),
            None => {},
        }
    } else {
        assert(s.drop_first() =~= found.drop_first().push(Ok(item)));
        assert(s[0] == found[0]);
        lemma_gathered_push(found.drop_first(), item);
        match (found[0], gathered(found.drop_first())) {
            (Ok(Some(x)), Ok(r)) => {
                match item {
                    Some(a) => assert(seq![x] + r.push(a) =~= (seq![x] + r).push(a)),
                    None => {},
                }
            },
            _ => {},
        }
    }
}

/// The first error among the candidates is the outcome, whatever follows it.
pub proof fn lemma_gathered_first_error<E>(found: Seq<Result<Option<Archive>, E>>, k: int, e: E)
    requires
        0 <= k < found.len(),
        found[k] == Err::<Option<Archive>, E>(e),
        forall|j: int| 0 <= j < k ==> (#[trigger] found[j]) is Ok,
    ensures
        gathered(found) == Err::<Seq<Archive>, E>(e),
    decreases k,
{
    if k > 0 {
        assert forall|j: int| 0 <= j < k - 1 implies (#[trigger] found.drop_first()[j]) is Ok by {
            assert(found.drop_first()[j] == found[j + 1]);
        }
        lemma_gathered_first_error(found.drop_first(), k - 1, e);
        assert(found[0] is Ok);
    }
}

} // verus!

