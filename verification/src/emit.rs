//! The walk that writes a value with the runs it has opened on a stack of
//! its own: what is still to be written at every step, and why the walk
//! ends.

use vstd::prelude::*;
use crate::engine::{count_bytes, encode, encode_fields, encode_flat_into, encode_items};
use crate::engine::{limit_of, write_count};
use crate::error::Error;
use crate::optional::{absent_bytes, write_absent};
use crate::shape::Shape;
use crate::value::{model_of, models_of, Value, ValueView};
use crate::varint::{tag_of, varint_bytes, write_tag};

verus! {

/// Bytes to be written, or the reason there are none.
pub type Wire = Result<Seq<u8>, Error>;

/// First the one, then the other; the first error of the two, if any.
pub open spec fn chain(a: Wire, b: Wire) -> Wire {
    match a {
        Err(e) => Err(e),
        Ok(x) => match b {
            Err(e) => Err(e),
            Ok(y) => Ok(x + y),
        },
    }
}

/// A run of values of which some are written and the rest is still to be:
/// the fields of a record, or the elements of a sequence.
pub enum RunView {
    Fields { fields: Seq<Shape>, values: Seq<ValueView>, next: nat },
    Items { elem: Shape, values: Seq<ValueView>, next: nat },
}

/// The bytes still to be written of a run.
pub open spec fn run_rest(r: RunView) -> Wire {
    match r {
        RunView::Fields { fields, values, next } => encode_fields(fields, values, next),
        RunView::Items { elem, values, next } => encode_items(elem, values, next),
    }
}

/// The bytes still to be written of the open runs, innermost first.
pub open spec fn runs_rest(runs: Seq<RunView>) -> Wire
    decreases runs.len(),
{
    if runs.len() == 0 {
        Ok(Seq::empty())
    } else {
        chain(run_rest(runs.last()), runs_rest(runs.drop_last()))
    }
}

/// The bytes of the value about to be written, if one is.
pub open spec fn todo(task: Option<(Shape, ValueView)>) -> Wire {
    match task {
        Some((s, v)) => encode(s, v),
        None => Ok(Seq::empty()),
    }
}

/// All that is still to be written: the value at hand and then the open
/// runs.
pub open spec fn to_come(task: Option<(Shape, ValueView)>, runs: Seq<RunView>) -> Wire {
    chain(todo(task), runs_rest(runs))
}

/// Chaining does not care how it is grouped.
pub proof fn lemma_chain_assoc(a: Wire, b: Wire, c: Wire)
    ensures
        chain(chain(a, b), c) == chain(a, chain(b, c)),
{
    if a is Ok && b is Ok && c is Ok {
        assert((a->Ok_0 + b->Ok_0) + c->Ok_0 =~= a->Ok_0 + (b->Ok_0 + c->Ok_0));
    }
}

/// Nothing, chained in front, changes nothing.
pub proof fn lemma_chain_nothing(x: Wire)
    ensures
        chain(Ok(Seq::empty()), x) == x,
{
    if x is Ok {
        assert(Seq::<u8>::empty() + x->Ok_0 =~= x->Ok_0);
    }
}

/// A run more is written before the runs around it.
pub proof fn lemma_runs_push(runs: Seq<RunView>, r: RunView)
    ensures
        runs_rest(runs.push(r)) == chain(run_rest(r), runs_rest(runs)),
{
    assert(runs.push(r).drop_last() =~= runs);
}

/// Writing fields is writing the first of them and then the rest.
pub proof fn lemma_fields_write_first(fs: Seq<Shape>, vs: Seq<ValueView>, i: nat)
    ensures
        encode_fields(fs, vs, i) == (if i >= fs.len() {
            Ok::<Seq<u8>, Error>(Seq::empty())
        } else {
            chain(encode(fs[i as int], vs[i as int]), encode_fields(fs, vs, i + 1))
        }),
{
}

/// Writing elements is writing the first of them and then the rest.
pub proof fn lemma_items_write_first(elem: Shape, vs: Seq<ValueView>, i: nat)
    ensures
        encode_items(elem, vs, i) == (if i >= vs.len() {
            Ok::<Seq<u8>, Error>(Seq::empty())
        } else {
            chain(encode(elem, vs[i as int]), encode_items(elem, vs, i + 1))
        }),
{
}

/// The number of values in a value, itself among them.
pub open spec fn size(v: ValueView) -> nat
    decreases v,
{
    match v {
        ValueView::Optional(Some(x)) => 1 + size(*x),
        ValueView::Union(_, x) => 1 + size(*x),
        ValueView::Record(vs) => 1 + sizes(vs, 0),
        ValueView::Array(vs) => 1 + sizes(vs, 0),
        _ => 1,
    }
}

/// The sizes of the values from `i` on and a step for each, together.
pub open spec fn sizes(vs: Seq<ValueView>, i: nat) -> nat
    decreases vs, vs.len() - i,
{
    if i >= vs.len() {
        0
    } else {
        size(vs[i as int]) + 1 + sizes(vs, i + 1)
    }
}

/// A bound on the steps still to come in a run.
pub open spec fn pending(r: RunView) -> nat {
    match r {
        RunView::Fields { fields, values, next } => sizes(values, next),
        RunView::Items { elem, values, next } => sizes(values, next),
    }
}

/// The pending steps of all the runs, together.
pub open spec fn pendings(runs: Seq<RunView>) -> nat
    decreases runs.len(),
{
    if runs.len() == 0 {
        0
    } else {
        pendings(runs.drop_last()) + pending(runs.last())
    }
}

/// A run more adds its pending steps.
pub proof fn lemma_pendings_push(runs: Seq<RunView>, r: RunView)
    ensures
        pendings(runs.push(r)) == pendings(runs) + pending(r),
{
    assert(runs.push(r).drop_last() =~= runs);
}

/// A run of values that the walk has opened: what `RunView` describes, over
/// the values themselves.
pub enum Run<'a> {
    Fields { fields: &'a Vec<Shape>, values: &'a Vec<Value>, next: usize },
    Items { elem: &'a Shape, values: &'a Vec<Value>, next: usize },
}

impl<'a> View for Run<'a> {
    type V = RunView;

    open spec fn view(&self) -> RunView {
        match self {
            Run::Fields { fields, values, next } => RunView::Fields {
                fields: fields@,
                values: models_of(values@),
                next: *next as nat,
            },
            Run::Items { elem, values, next } => RunView::Items {
                elem: **elem,
                values: models_of(values@),
                next: *next as nat,
            },
        }
    }
}

/// Whether a run is one that the walk leaves on its stack: as many values as
/// shapes, and a next index within them.
pub open spec fn run_sound<'a>(r: Run<'a>) -> bool {
    match r {
        Run::Fields { fields, values, next } => fields@.len() == values@.len() && next
            <= values@.len(),
        Run::Items { elem, values, next } => next <= values@.len(),
    }
}

/// Whether every run of a stack is sound.
pub open spec fn all_sound<'a>(stack: Seq<Run<'a>>) -> bool {
    forall|i: int| 0 <= i < stack.len() ==> run_sound(#[trigger] stack[i])
}

/// The views of the runs of a stack, outermost first.
pub open spec fn runs_of<'a>(stack: Seq<Run<'a>>) -> Seq<RunView> {
    Seq::new(stack.len(), |i: int| stack[i]@)
}

/// The view of the value at hand, if one is.
pub open spec fn task_of<'a>(task: Option<(&'a Shape, &'a Value)>) -> Option<(Shape, ValueView)> {
    match task {
        Some((s, v)) => Some((*s, v@)),
        None => None,
    }
}

/// The steps still to come: those of the value at hand, if one is, and those
/// pending in the runs.
pub open spec fn ahead<'a>(task: Option<(&'a Shape, &'a Value)>, stack: Seq<Run<'a>>) -> nat {
    (match task {
        Some((s, v)) => size(v@),
        None => 0,
    }) + pendings(runs_of(stack))
}

/// What one step leaves behind: what was written, followed by what is still
/// to come, is what was to come before; and fewer steps are ahead, or as
/// many with a run fewer. On an error nothing was written, and the error is
/// what was to come.
pub open spec fn stepped<'a>(
    task: Option<(&'a Shape, &'a Value)>,
    before: Seq<Run<'a>>,
    after: Seq<Run<'a>>,
    wrote_before: Seq<u8>,
    wrote_after: Seq<u8>,
    r: Result<Option<(&'a Shape, &'a Value)>, Error>,
) -> bool {
    match r {
        Err(e) => wrote_after == wrote_before && to_come(task_of(task), runs_of(before)) == Err::<
            Seq<u8>,
            Error,
        >(e),
        Ok(next) => {
            &&& all_sound(after)
            &&& wrote_before.len() <= wrote_after.len()
            &&& wrote_after == wrote_before + wrote_after.skip(wrote_before.len() as int)
            &&& chain(
                Ok(wrote_after.skip(wrote_before.len() as int)),
                to_come(task_of(next), runs_of(after)),
            ) == to_come(task_of(task), runs_of(before))
            &&& (ahead(next, after) < ahead(task, before) || (ahead(next, after) == ahead(
                task,
                before,
            ) && after.len() < before.len()))
        },
    }
}

/// One step at an optional value: absence is written at once, and a present
/// value is its payload.
fn step_optional<'a>(
    shape: &'a Shape,
    v: &'a Value,
    out: &mut Vec<u8>,
    stack: &mut Vec<Run<'a>>,
) -> (r: Result<Option<(&'a Shape, &'a Value)>, Error>)
    requires
        *shape is Optional,
        all_sound(old(stack)@),
    ensures
        stepped(Some((shape, v)), old(stack)@, final(stack)@, old(out)@, final(out)@, r),
{
    let ghost runs = runs_of(stack@);
    match (shape, v) {
        (Shape::Optional(_), Value::Optional(None)) => {
            write_absent(out);
            proof {
                assert(out@.skip(old(out)@.len() as int) =~= absent_bytes());
                lemma_chain_nothing(runs_rest(runs));
            }
            Ok(None)
        },
        (Shape::Optional(inner), Value::Optional(Some(x))) => {
            proof {
                assert(out@.skip(old(out)@.len() as int) =~= Seq::<u8>::empty());
                assert(out@ =~= old(out)@ + Seq::<u8>::empty());
                lemma_chain_nothing(to_come(Some((**inner, x@)), runs));
            }
            Ok(Some((inner, x)))
        },
        _ => Err(Error::UnsupportedShape),
    }
}

/// One step at a union: the index is written and the payload is at hand.
fn step_union<'a>(shape: &'a Shape, v: &'a Value, out: &mut Vec<u8>, stack: &mut Vec<Run<'a>>) -> (r:
    Result<Option<(&'a Shape, &'a Value)>, Error>)
    requires
        *shape is Union,
        all_sound(old(stack)@),
    ensures
        stepped(Some((shape, v)), old(stack)@, final(stack)@, old(out)@, final(out)@, r),
{
    let ghost runs = runs_of(stack@);
    match (shape, v) {
        (Shape::Union(alts), Value::Union(k, x)) => {
            if *k as u64 >= alts.len() as u64 {
                return Err(Error::UnsupportedShape);
            }
            write_tag(*k, out);
            proof {
                let tag = varint_bytes(tag_of(*k));
                let inner = encode(alts@[*k as int], x@);
                assert(out@.skip(old(out)@.len() as int) =~= tag);
                assert(encode(*shape, v@) == chain(Ok(tag), inner));
                lemma_chain_assoc(Ok(tag), inner, runs_rest(runs));
            }
            Ok(Some((&alts[*k as usize], x)))
        },
        _ => Err(Error::UnsupportedShape),
    }
}

/// One step at a record: its fields are opened as a run, the first of them
/// at hand.
fn step_record<'a>(shape: &'a Shape, v: &'a Value, out: &mut Vec<u8>, stack: &mut Vec<Run<'a>>) -> (r:
    Result<Option<(&'a Shape, &'a Value)>, Error>)
    requires
        *shape is Record,
        all_sound(old(stack)@),
    ensures
        stepped(Some((shape, v)), old(stack)@, final(stack)@, old(out)@, final(out)@, r),
{
    let ghost runs = runs_of(stack@);
    match (shape, v) {
        (Shape::Record(fs), Value::Record(vs)) => {
            let ghost ms = models_of(vs@);
            proof {
                assert(ms.len() == vs@.len());
                assert(out@.skip(old(out)@.len() as int) =~= Seq::<u8>::empty());
                assert(out@ =~= old(out)@ + Seq::<u8>::empty());
            }
            if fs.len() != vs.len() {
                return Err(Error::UnsupportedShape);
            }
            let run = Run::Fields { fields: fs, values: vs, next: 0 };
            proof {
                lemma_runs_push(runs, run@);
                lemma_pendings_push(runs, run@);
                assert(runs_of(stack@.push(run)) =~= runs.push(run@));
                assert(encode(*shape, v@) == encode_fields(fs@, ms, 0));
                lemma_chain_nothing(runs_rest(runs.push(run@)));
                lemma_chain_nothing(to_come(None, runs.push(run@)));
            }
            stack.push(run);
            Ok(None)
        },
        _ => Err(Error::UnsupportedShape),
    }
}

/// One step at a sequence: its count is written and its elements are opened
/// as a run.
fn step_array<'a>(shape: &'a Shape, v: &'a Value, out: &mut Vec<u8>, stack: &mut Vec<Run<'a>>) -> (r:
    Result<Option<(&'a Shape, &'a Value)>, Error>)
    requires
        *shape is Array,
        all_sound(old(stack)@),
    ensures
        stepped(Some((shape, v)), old(stack)@, final(stack)@, old(out)@, final(out)@, r),
{
    let ghost runs = runs_of(stack@);
    match (shape, v) {
        (Shape::Array(p, elem), Value::Array(vs)) => {
            let ghost ms = models_of(vs@);
            proof {
                assert(ms.len() == vs@.len());
            }
            if vs.len() > limit_of(*p) {
                return Err(Error::LengthOverflow);
            }
            write_count(*p, vs.len(), out);
            let run = Run::Items { elem, values: vs, next: 0 };
            proof {
                let head = count_bytes(*p, vs@.len());
                assert(out@.skip(old(out)@.len() as int) =~= head);
                lemma_runs_push(runs, run@);
                lemma_pendings_push(runs, run@);
                assert(runs_of(stack@.push(run)) =~= runs.push(run@));
                assert(encode(*shape, v@) == chain(Ok(head), encode_items(**elem, ms, 0)));
                lemma_chain_assoc(Ok(head), encode_items(**elem, ms, 0), runs_rest(runs));
                lemma_chain_nothing(runs_rest(runs.push(run@)));
            }
            stack.push(run);
            Ok(None)
        },
        _ => Err(Error::UnsupportedShape),
    }
}

/// One step at a value that holds no other: it is written outright.
fn step_flat<'a>(shape: &'a Shape, v: &'a Value, out: &mut Vec<u8>, stack: &mut Vec<Run<'a>>) -> (r:
    Result<Option<(&'a Shape, &'a Value)>, Error>)
    requires
        !(*shape is Optional || *shape is Union || *shape is Record || *shape is Array),
        all_sound(old(stack)@),
    ensures
        stepped(Some((shape, v)), old(stack)@, final(stack)@, old(out)@, final(out)@, r),
{
    let ghost runs = runs_of(stack@);
    match encode_flat_into(shape, v, out) {
        Err(e) => Err(e),
        Ok(()) => {
            proof {
                let bytes = encode(*shape, v@)->Ok_0;
                assert(out@.skip(old(out)@.len() as int) =~= bytes);
                lemma_chain_nothing(runs_rest(runs));
            }
            Ok(None)
        },
    }
}

/// One step with no value at hand: the innermost run hands out its next
/// value, or, with none left, is closed.
fn step_run<'a>(out: &mut Vec<u8>, stack: &mut Vec<Run<'a>>) -> (r: Result<
    Option<(&'a Shape, &'a Value)>,
    Error,
>)
    requires
        old(stack)@.len() > 0,
        all_sound(old(stack)@),
    ensures
        stepped(None, old(stack)@, final(stack)@, old(out)@, final(out)@, r),
{
    let ghost before = runs_of(stack@);
    let run = match stack.pop() {
        Some(run) => run,
        None => {
            return Ok(None);
        },
    };
    let ghost runs = runs_of(stack@);
    proof {
        assert(before =~= runs.push(run@));
        assert(run_sound(old(stack)@[old(stack)@.len() - 1]));
        lemma_runs_push(runs, run@);
        lemma_pendings_push(runs, run@);
        assert(out@.skip(old(out)@.len() as int) =~= Seq::<u8>::empty());
        assert(out@ =~= old(out)@ + Seq::<u8>::empty());
        lemma_chain_nothing(runs_rest(before));
        lemma_chain_nothing(runs_rest(runs));
    }
    match run {
        Run::Fields { fields, values, next } => {
            let ghost ms = models_of(values@);
            proof {
                assert(ms.len() == values@.len());
                lemma_fields_write_first(fields@, ms, next as nat);
            }
            if next == values.len() {
                proof {
                    lemma_chain_nothing(to_come(None, runs));
                }
                Ok(None)
            } else {
                let again = Run::Fields { fields, values, next: next + 1 };
                proof {
                    assert(ms[next as int] == model_of(values@[next as int]));
                    lemma_runs_push(runs, again@);
                    lemma_pendings_push(runs, again@);
                    assert(runs_of(stack@.push(again)) =~= runs.push(again@));
                    lemma_chain_assoc(
                        encode(fields@[next as int], ms[next as int]),
                        encode_fields(fields@, ms, (next + 1) as nat),
                        runs_rest(runs),
                    );
                    lemma_chain_nothing(to_come(
                        Some((fields@[next as int], ms[next as int])),
                        runs.push(again@),
                    ));
                }
                stack.push(again);
                Ok(Some((&fields[next], &values[next])))
            }
        },
        Run::Items { elem, values, next } => {
            let ghost ms = models_of(values@);
            proof {
                assert(ms.len() == values@.len());
                lemma_items_write_first(*elem, ms, next as nat);
            }
            if next == values.len() {
                proof {
                    lemma_chain_nothing(to_come(None, runs));
                }
                Ok(None)
            } else {
                let again = Run::Items { elem, values, next: next + 1 };
                proof {
                    assert(ms[next as int] == model_of(values@[next as int]));
                    lemma_runs_push(runs, again@);
                    lemma_pendings_push(runs, again@);
                    assert(runs_of(stack@.push(again)) =~= runs.push(again@));
                    lemma_chain_assoc(
                        encode(*elem, ms[next as int]),
                        encode_items(*elem, ms, (next + 1) as nat),
                        runs_rest(runs),
                    );
                    lemma_chain_nothing(to_come(
                        Some((*elem, ms[next as int])),
                        runs.push(again@),
                    ));
                }
                stack.push(again);
                Ok(Some((elem, &values[next])))
            }
        },
    }
}

/// One step of the walk.
fn step<'a>(
    task: Option<(&'a Shape, &'a Value)>,
    out: &mut Vec<u8>,
    stack: &mut Vec<Run<'a>>,
) -> (r: Result<Option<(&'a Shape, &'a Value)>, Error>)
    requires
        task is None ==> old(stack)@.len() > 0,
        all_sound(old(stack)@),
    ensures
        stepped(task, old(stack)@, final(stack)@, old(out)@, final(out)@, r),
{
    match task {
        None => step_run(out, stack),
        Some((shape, v)) => match shape {
            Shape::Optional(_) => step_optional(shape, v, out, stack),
            Shape::Union(_) => step_union(shape, v, out, stack),
            Shape::Record(_) => step_record(shape, v, out, stack),
            Shape::Array(_, _) => step_array(shape, v, out, stack),
            _ => step_flat(shape, v, out, stack),
        },
    }
}

/// Appends the wire form of `v`, read as a value of the given shape, to
/// `out`, keeping the runs it has opened on a stack of its own: however
/// deep the value nests, the walk takes one loop and no recursion. On an
/// error nothing is left behind in `out`.
pub fn encode_walk<'a>(shape: &'a Shape, v: &'a Value, out: &mut Vec<u8>) -> (r: Result<(), Error>)
    ensures
        match encode(*shape, v@) {
            Ok(bytes) => r is Ok && final(out)@ == old(out)@ + bytes,
            Err(e) => r == Err::<(), Error>(e) && final(out)@ == old(out)@,
        },
{
    let base: usize = out.len();
    let ghost goal = encode(*shape, v@);
    let ghost mut acc: Seq<u8> = Seq::empty();
    let mut stack: Vec<Run<'a>> = Vec::new();
    let mut task: Option<(&'a Shape, &'a Value)> = Some((shape, v));
    proof {
        assert(runs_of(stack@) =~= Seq::<RunView>::empty());
        assert(out@ =~= old(out)@ + acc);
        lemma_chain_nothing(to_come(task_of(task), runs_of(stack@)));
        if goal is Ok {
            assert(goal->Ok_0 + Seq::<u8>::empty() =~= goal->Ok_0);
        }
    }
    loop
        invariant
            base == old(out)@.len(),
            all_sound(stack@),
            out@ == old(out)@ + acc,
            goal == encode(*shape, v@),
            goal == chain(Ok(acc), to_come(task_of(task), runs_of(stack@))),
        decreases ahead(task, stack@), stack@.len(),
    {
        if task.is_none() && stack.len() == 0 {
            proof {
                assert(runs_of(stack@) =~= Seq::<RunView>::empty());
                assert(acc + Seq::<u8>::empty() =~= acc);
            }
            return Ok(());
        }
        let ghost wrote = out@;
        let ghost coming = to_come(task_of(task), runs_of(stack@));
        match step(task, out, &mut stack) {
            Err(e) => {
                out.truncate(base);
                proof {
                    assert(out@ =~= old(out)@);
                }
                return Err(e);
            },
            Ok(next) => {
                proof {
                    let delta = out@.skip(wrote.len() as int);
                    lemma_chain_assoc(Ok(acc), Ok(delta), to_come(task_of(next), runs_of(stack@)));
                    assert(out@ =~= old(out)@ + (acc + delta));
                    acc = acc + delta;
                }
                task = next;
            },
        }
    }
}

} // verus!
