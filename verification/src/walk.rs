//! The bookkeeping of a walk that keeps its open values on a stack of its
//! own: what a frame of the stack stands for, what the walk yields once the
//! innermost open value is known, and why the walk ends.

use vstd::prelude::*;
use crate::engine::{count_parse, decode, decode_fields, decode_flat_at, decode_items};
use crate::engine::parse_count;
use crate::optional::peek_absent;
use crate::error::Error;
use crate::laws::{lemma_count_within, lemma_decode_within};
use crate::parse::Parsed;
use crate::primitive::i16_parse;
use crate::shape::Shape;
use crate::value::{lemma_models_push, models_of, Value, ValueView};
use crate::varint::{bits_of_i32, lemma_var_parse_bounds, parse_varint, varint_parse};

verus! {

/// A value and the position in the source right after it, or the error that
/// stopped the walk.
pub type Landed = Result<(ValueView, nat), Error>;

/// What a parse from position `pos` yields, with the position after the
/// value in place of the number of bytes taken.
pub open spec fn landed(r: Parsed<ValueView>, pos: nat) -> Landed {
    match r {
        Ok((v, n)) => Ok((v, pos + n)),
        Err(e) => Err(e),
    }
}

/// The source from position `pos` on.
pub open spec fn rest_at(b: Seq<u8>, pos: nat) -> Seq<u8> {
    b.skip(pos as int)
}

/// What reading a value of shape `s` at position `pos` yields.
pub open spec fn landing(s: Shape, b: Seq<u8>, pos: nat) -> Landed {
    landed(decode(s, rest_at(b, pos)), pos)
}

/// A value that the walk has opened and not yet closed.
pub enum FrameView {
    /// A present optional value: it closes when its payload is known.
    Optional,
    /// An alternative of a union under the given index.
    Union(u32),
    /// A record with the fields read so far; the field after them is open.
    Record { fields: Seq<Shape>, acc: Seq<ValueView> },
    /// A sequence with the elements read so far and the number still to be
    /// read, the open one among them.
    Items { elem: Shape, left: nat, acc: Seq<ValueView> },
}

/// What the value that a frame stands for turns out to be, once the value
/// open inside it is known to be `v`, ending at `p`: what is left of the
/// frame is read from `p` on.
pub open spec fn close(f: FrameView, b: Seq<u8>, v: ValueView, p: nat) -> Landed {
    match f {
        FrameView::Optional => Ok((ValueView::Optional(Some(Box::new(v))), p)),
        FrameView::Union(k) => Ok((ValueView::Union(k, Box::new(v)), p)),
        FrameView::Record { fields, acc } => match decode_fields(
            fields,
            acc.len() + 1,
            rest_at(b, p),
        ) {
            Ok((vs, m)) => Ok((ValueView::Record(acc.push(v) + vs), p + m)),
            Err(e) => Err(e),
        },
        FrameView::Items { elem, left, acc } => match decode_items(
            elem,
            (left - 1) as nat,
            rest_at(b, p),
        ) {
            Ok((vs, m)) => Ok((ValueView::Array(acc.push(v) + vs), p + m)),
            Err(e) => Err(e),
        },
    }
}

/// What the whole walk yields, given the frames still open, outermost
/// first, and what the value open in the innermost of them turned out to be.
pub open spec fn finish(frames: Seq<FrameView>, b: Seq<u8>, r: Landed) -> Landed
    decreases frames.len(),
{
    if frames.len() == 0 {
        r
    } else {
        match r {
            Err(e) => Err(e),
            Ok((v, p)) => finish(frames.drop_last(), b, close(frames.last(), b, v, p)),
        }
    }
}

/// An error ends the walk whatever is open.
pub proof fn lemma_finish_error(frames: Seq<FrameView>, b: Seq<u8>, e: Error)
    ensures
        finish(frames, b, Err(e)) == Err::<(ValueView, nat), Error>(e),
{
}

/// Closing the innermost frame: the walk goes on with one frame fewer and
/// the value that the frame stands for.
pub proof fn lemma_finish_push(frames: Seq<FrameView>, f: FrameView, b: Seq<u8>, r: Landed)
    ensures
        finish(frames.push(f), b, r) == (match r {
            Err(e) => Err::<(ValueView, nat), Error>(e),
            Ok((v, p)) => finish(frames, b, close(f, b, v, p)),
        }),
{
    assert(frames.push(f).drop_last() =~= frames);
}

/// Where a value ends, the rest of the source begins.
pub proof fn lemma_rest_after(s: Shape, b: Seq<u8>, pos: nat)
    requires
        pos <= b.len(),
        decode(s, rest_at(b, pos)) is Ok,
    ensures
        pos + decode(s, rest_at(b, pos))->Ok_0.1 <= b.len(),
        rest_at(b, pos).skip(decode(s, rest_at(b, pos))->Ok_0.1 as int) == rest_at(
            b,
            pos + decode(s, rest_at(b, pos))->Ok_0.1,
        ),
{
    lemma_decode_within(s, rest_at(b, pos));
    let n = decode(s, rest_at(b, pos))->Ok_0.1;
    assert(rest_at(b, pos).skip(n as int) =~= rest_at(b, pos + n));
}

/// An absent optional value is read at once.
pub proof fn lemma_skip_optional(s: Shape, b: Seq<u8>, pos: nat)
    requires
        s is Optional,
        i16_parse(rest_at(b, pos)) is Ok,
        i16_parse(rest_at(b, pos))->Ok_0.0 == -1,
    ensures
        landing(s, b, pos) == Ok::<(ValueView, nat), Error>((ValueView::Optional(None), pos + 2)),
{
}

/// Opening a present optional value changes nothing of what the walk
/// yields.
#[verifier::rlimit(40)]
pub proof fn lemma_open_optional(frames: Seq<FrameView>, b: Seq<u8>, s: Shape, pos: nat)
    requires
        s is Optional,
        i16_parse(rest_at(b, pos)) is Ok,
        i16_parse(rest_at(b, pos))->Ok_0.0 != -1,
    ensures
        finish(frames.push(FrameView::Optional), b, landing(*s->Optional_0, b, pos)) == finish(
            frames,
            b,
            landing(s, b, pos),
        ),
{
    let inner = landing(*s->Optional_0, b, pos);
    lemma_finish_push(frames, FrameView::Optional, b, inner);
    if inner is Err {
        lemma_finish_error(frames, b, inner->Err_0);
    }
}

/// The index that a union's tag spells.
pub open spec fn chosen(b: Seq<u8>, pos: nat) -> nat {
    bits_of_i32(varint_parse(rest_at(b, pos))->Ok_0.0)
}

/// The position after a union's tag.
pub open spec fn after_tag(b: Seq<u8>, pos: nat) -> nat {
    pos + varint_parse(rest_at(b, pos))->Ok_0.1
}

/// Opening the chosen alternative of a union changes nothing of what the
/// walk yields.
#[verifier::rlimit(40)]
pub proof fn lemma_open_union(frames: Seq<FrameView>, b: Seq<u8>, s: Shape, pos: nat)
    requires
        s is Union,
        pos <= b.len(),
        varint_parse(rest_at(b, pos)) is Ok,
        chosen(b, pos) < s->Union_0@.len(),
    ensures
        after_tag(b, pos) <= b.len(),
        finish(
            frames.push(FrameView::Union(chosen(b, pos) as u32)),
            b,
            landing(s->Union_0@[chosen(b, pos) as int], b, after_tag(b, pos)),
        ) == finish(frames, b, landing(s, b, pos)),
{
    let k = chosen(b, pos);
    let n = varint_parse(rest_at(b, pos))->Ok_0.1;
    lemma_var_parse_bounds(rest_at(b, pos), 5, 16);
    assert(rest_at(b, pos).skip(n as int) =~= rest_at(b, pos + n));
    let inner = landing(s->Union_0@[k as int], b, pos + n);
    lemma_finish_push(frames, FrameView::Union(k as u32), b, inner);
    if inner is Err {
        lemma_finish_error(frames, b, inner->Err_0);
    }
}

/// Reading a record is reading its fields from the first on.
pub proof fn lemma_record_reads_fields(s: Shape, b: Seq<u8>)
    requires
        s is Record,
    ensures
        decode(s, b) == (match decode_fields(s->Record_0@, 0, b) {
            Ok((vs, n)) => Ok::<(ValueView, nat), Error>((ValueView::Record(vs), n)),
            Err(e) => Err(e),
        }),
{
}

/// Reading fields is reading the first of them and then the rest.
pub proof fn lemma_fields_read_first(fs: Seq<Shape>, i: nat, b: Seq<u8>)
    ensures
        decode_fields(fs, i, b) == (if i >= fs.len() {
            Ok::<(Seq<ValueView>, nat), Error>((Seq::empty(), 0))
        } else {
            match decode(fs[i as int], b) {
                Err(e) => Err(e),
                Ok((v, n)) => match decode_fields(fs, i + 1, b.skip(n as int)) {
                    Err(e) => Err(e),
                    Ok((vs, m)) => Ok((seq![v] + vs, n + m)),
                },
            }
        }),
{
}

/// Reading a sequence is reading its count and then its elements.
pub proof fn lemma_array_reads_items(s: Shape, b: Seq<u8>)
    requires
        s is Array,
    ensures
        decode(s, b) == (match count_parse(s->Array_0, b) {
            Err(e) => Err::<(ValueView, nat), Error>(e),
            Ok((count, n)) => {
                if count < 0 {
                    Err(Error::TruncatedInput)
                } else {
                    match decode_items(*s->Array_1, count as nat, b.skip(n as int)) {
                        Ok((vs, m)) => Ok((ValueView::Array(vs), n + m)),
                        Err(e) => Err(e),
                    }
                }
            },
        }),
{
}

/// Reading elements is reading the first of them and then the rest.
pub proof fn lemma_items_read_first(elem: Shape, count: nat, b: Seq<u8>)
    ensures
        decode_items(elem, count, b) == (if count == 0 {
            Ok::<(Seq<ValueView>, nat), Error>((Seq::empty(), 0))
        } else {
            match decode(elem, b) {
                Err(e) => Err(e),
                Ok((v, n)) => match decode_items(elem, (count - 1) as nat, b.skip(n as int)) {
                    Err(e) => Err(e),
                    Ok((vs, m)) => Ok((seq![v] + vs, n + m)),
                },
            }
        }),
{
}

/// A record without fields is read at once.
pub proof fn lemma_empty_record(s: Shape, b: Seq<u8>, pos: nat)
    requires
        s is Record,
        s->Record_0@.len() == 0,
    ensures
        landing(s, b, pos) == Ok::<(ValueView, nat), Error>(
            (ValueView::Record(Seq::empty()), pos),
        ),
{
    lemma_record_reads_fields(s, rest_at(b, pos));
    lemma_fields_read_first(s->Record_0@, 0, rest_at(b, pos));
}

/// Opening the first field of a record changes nothing of what the walk
/// yields.
#[verifier::rlimit(40)]
pub proof fn lemma_open_record(frames: Seq<FrameView>, b: Seq<u8>, s: Shape, pos: nat)
    requires
        s is Record,
        s->Record_0@.len() > 0,
        pos <= b.len(),
    ensures
        finish(
            frames.push(FrameView::Record { fields: s->Record_0@, acc: Seq::empty() }),
            b,
            landing(s->Record_0@[0], b, pos),
        ) == finish(frames, b, landing(s, b, pos)),
{
    lemma_record_reads_fields(s, rest_at(b, pos));
    lemma_fields_read_first(s->Record_0@, 0, rest_at(b, pos));
    let fs = s->Record_0@;
    let first = decode(fs[0], rest_at(b, pos));
    let f = FrameView::Record { fields: fs, acc: Seq::empty() };
    lemma_finish_push(frames, f, b, landed(first, pos));
    if first is Err {
        lemma_finish_error(frames, b, first->Err_0);
    } else {
        let v = first->Ok_0.0;
        let n = first->Ok_0.1;
        lemma_rest_after(fs[0], b, pos);
        let tail = decode_fields(fs, 1, rest_at(b, pos + n));
        if tail is Ok {
            assert(Seq::<ValueView>::empty().push(v) + tail->Ok_0.0 =~= seq![v] + tail->Ok_0.0);
        } else {
            lemma_finish_error(frames, b, tail->Err_0);
        }
    }
}

/// The count that a sequence's prefix spells.
pub open spec fn counted(s: Shape, b: Seq<u8>, pos: nat) -> int {
    count_parse(s->Array_0, rest_at(b, pos))->Ok_0.0
}

/// The position after a sequence's prefix.
pub open spec fn after_count(s: Shape, b: Seq<u8>, pos: nat) -> nat {
    pos + count_parse(s->Array_0, rest_at(b, pos))->Ok_0.1
}

/// A sequence of no elements is read with its count.
pub proof fn lemma_empty_items(s: Shape, b: Seq<u8>, pos: nat)
    requires
        s is Array,
        count_parse(s->Array_0, rest_at(b, pos)) is Ok,
        counted(s, b, pos) == 0,
    ensures
        landing(s, b, pos) == Ok::<(ValueView, nat), Error>(
            (ValueView::Array(Seq::empty()), after_count(s, b, pos)),
        ),
{
    lemma_array_reads_items(s, rest_at(b, pos));
    lemma_items_read_first(*s->Array_1, 0, rest_at(b, after_count(s, b, pos)));
    lemma_items_read_first(
        *s->Array_1,
        0,
        rest_at(b, pos).skip(count_parse(s->Array_0, rest_at(b, pos))->Ok_0.1 as int),
    );
}

/// Opening the first element of a sequence of at least one changes nothing
/// of what the walk yields.
#[verifier::rlimit(60)]
pub proof fn lemma_open_items(frames: Seq<FrameView>, b: Seq<u8>, s: Shape, pos: nat)
    requires
        s is Array,
        pos <= b.len(),
        count_parse(s->Array_0, rest_at(b, pos)) is Ok,
        counted(s, b, pos) > 0,
    ensures
        after_count(s, b, pos) <= b.len(),
        finish(
            frames.push(
                FrameView::Items {
                    elem: *s->Array_1,
                    left: counted(s, b, pos) as nat,
                    acc: Seq::empty(),
                },
            ),
            b,
            landing(*s->Array_1, b, after_count(s, b, pos)),
        ) == finish(frames, b, landing(s, b, pos)),
{
    lemma_array_reads_items(s, rest_at(b, pos));
    lemma_items_read_first(
        *s->Array_1,
        counted(s, b, pos) as nat,
        rest_at(b, after_count(s, b, pos)),
    );
    let elem = *s->Array_1;
    let count = counted(s, b, pos) as nat;
    let n = count_parse(s->Array_0, rest_at(b, pos))->Ok_0.1;
    let at = pos + n;
    lemma_count_within(s->Array_0, rest_at(b, pos));
    assert(rest_at(b, pos).skip(n as int) =~= rest_at(b, at));
    let f = FrameView::Items { elem, left: count, acc: Seq::empty() };
    let first = decode(elem, rest_at(b, at));
    lemma_finish_push(frames, f, b, landed(first, at));
    if first is Err {
        lemma_finish_error(frames, b, first->Err_0);
    } else {
        let v = first->Ok_0.0;
        let k = first->Ok_0.1;
        lemma_rest_after(elem, b, at);
        let tail = decode_items(elem, (count - 1) as nat, rest_at(b, at + k));
        if tail is Ok {
            assert(Seq::<ValueView>::empty().push(v) + tail->Ok_0.0 =~= seq![v] + tail->Ok_0.0);
        } else {
            lemma_finish_error(frames, b, tail->Err_0);
        }
    }
}

/// A field closes and the next one opens: nothing changes of what the walk
/// yields.
#[verifier::rlimit(40)]
pub proof fn lemma_next_field(
    frames: Seq<FrameView>,
    b: Seq<u8>,
    fields: Seq<Shape>,
    acc: Seq<ValueView>,
    v: ValueView,
    pos: nat,
)
    requires
        acc.len() + 1 < fields.len(),
        pos <= b.len(),
    ensures
        finish(
            frames.push(FrameView::Record { fields, acc: acc.push(v) }),
            b,
            landing(fields[acc.len() as int + 1], b, pos),
        ) == finish(frames.push(FrameView::Record { fields, acc }), b, Ok((v, pos))),
{
    let i = acc.len() + 1;
    let next = decode(fields[i as int], rest_at(b, pos));
    lemma_finish_push(frames, FrameView::Record { fields, acc }, b, Ok((v, pos)));
    lemma_finish_push(frames, FrameView::Record { fields, acc: acc.push(v) }, b, landed(next, pos));
    if next is Err {
        lemma_finish_error(frames, b, next->Err_0);
    } else {
        let v2 = next->Ok_0.0;
        let n = next->Ok_0.1;
        lemma_rest_after(fields[i as int], b, pos);
        let tail = decode_fields(fields, i + 1, rest_at(b, pos + n));
        if tail is Ok {
            assert(acc.push(v) + (seq![v2] + tail->Ok_0.0) =~= acc.push(v).push(v2)
                + tail->Ok_0.0);
        } else {
            lemma_finish_error(frames, b, tail->Err_0);
        }
    }
}

/// The last field closes and with it the record.
pub proof fn lemma_last_field(
    frames: Seq<FrameView>,
    b: Seq<u8>,
    fields: Seq<Shape>,
    acc: Seq<ValueView>,
    v: ValueView,
    pos: nat,
)
    requires
        acc.len() + 1 == fields.len(),
    ensures
        finish(frames, b, Ok((ValueView::Record(acc.push(v)), pos))) == finish(
            frames.push(FrameView::Record { fields, acc }),
            b,
            Ok((v, pos)),
        ),
{
    lemma_finish_push(frames, FrameView::Record { fields, acc }, b, Ok((v, pos)));
    assert(acc.push(v) + Seq::<ValueView>::empty() =~= acc.push(v));
}

/// An element closes and the next one opens: nothing changes of what the
/// walk yields.
#[verifier::rlimit(40)]
pub proof fn lemma_next_item(
    frames: Seq<FrameView>,
    b: Seq<u8>,
    elem: Shape,
    left: nat,
    acc: Seq<ValueView>,
    v: ValueView,
    pos: nat,
)
    requires
        left > 1,
        pos <= b.len(),
    ensures
        finish(
            frames.push(FrameView::Items { elem, left: (left - 1) as nat, acc: acc.push(v) }),
            b,
            landing(elem, b, pos),
        ) == finish(frames.push(FrameView::Items { elem, left, acc }), b, Ok((v, pos))),
{
    let next = decode(elem, rest_at(b, pos));
    lemma_finish_push(frames, FrameView::Items { elem, left, acc }, b, Ok((v, pos)));
    lemma_finish_push(
        frames,
        FrameView::Items { elem, left: (left - 1) as nat, acc: acc.push(v) },
        b,
        landed(next, pos),
    );
    if next is Err {
        lemma_finish_error(frames, b, next->Err_0);
    } else {
        let v2 = next->Ok_0.0;
        let n = next->Ok_0.1;
        lemma_rest_after(elem, b, pos);
        let tail = decode_items(elem, (left - 2) as nat, rest_at(b, pos + n));
        if tail is Ok {
            assert(acc.push(v) + (seq![v2] + tail->Ok_0.0) =~= acc.push(v).push(v2)
                + tail->Ok_0.0);
        } else {
            lemma_finish_error(frames, b, tail->Err_0);
        }
    }
}

/// The last element closes and with it the sequence.
pub proof fn lemma_last_item(
    frames: Seq<FrameView>,
    b: Seq<u8>,
    elem: Shape,
    acc: Seq<ValueView>,
    v: ValueView,
    pos: nat,
)
    ensures
        finish(frames, b, Ok((ValueView::Array(acc.push(v)), pos))) == finish(
            frames.push(FrameView::Items { elem, left: 1, acc }),
            b,
            Ok((v, pos)),
        ),
{
    lemma_finish_push(frames, FrameView::Items { elem, left: 1, acc }, b, Ok((v, pos)));
    assert(acc.push(v) + Seq::<ValueView>::empty() =~= acc.push(v));
}

/// A bound on the steps that reading a value of a shape takes.
pub open spec fn weight(s: Shape) -> nat
    decreases s, 0nat,
{
    match s {
        Shape::Optional(inner) => 1 + weight(*inner),
        Shape::Union(alts) => 1 + weights(alts@, 0),
        Shape::Record(fs) => 1 + weights(fs@, 0) + fs@.len(),
        Shape::Array(_, elem) => 1 + 0x8000_0000 * (weight(*elem) + 1),
        _ => 1,
    }
}

/// The weights of the shapes from `i` on, together.
pub open spec fn weights(fs: Seq<Shape>, i: nat) -> nat
    decreases fs, fs.len() - i,
{
    if i >= fs.len() {
        0
    } else {
        weight(fs[i as int]) + weights(fs, i + 1)
    }
}

/// A bound on the steps still to come in a frame once the value open in it
/// is closed.
pub open spec fn pending(f: FrameView) -> nat {
    match f {
        FrameView::Optional => 0,
        FrameView::Union(_) => 0,
        FrameView::Record { fields, acc } => weights(fields, acc.len() + 1) + (fields.len()
            - acc.len() - 1) as nat,
        FrameView::Items { elem, left, acc } => ((left - 1) as nat) * (weight(elem) + 1),
    }
}

/// The pending steps of all the frames, together.
pub open spec fn pendings(frames: Seq<FrameView>) -> nat
    decreases frames.len(),
{
    if frames.len() == 0 {
        0
    } else {
        pendings(frames.drop_last()) + pending(frames.last())
    }
}

/// No shape of a run weighs more than the run.
pub proof fn lemma_weights_index(fs: Seq<Shape>, i: nat, k: nat)
    requires
        i <= k < fs.len(),
    ensures
        weight(fs[k as int]) <= weights(fs, i),
    decreases fs.len() - i,
{
    if i < k {
        lemma_weights_index(fs, i + 1, k);
    }
}

/// A frame more adds its pending steps.
pub proof fn lemma_pendings_push(frames: Seq<FrameView>, f: FrameView)
    ensures
        pendings(frames.push(f)) == pendings(frames) + pending(f),
{
    assert(frames.push(f).drop_last() =~= frames);
}

/// The first element of a sequence and what is pending after it weigh less
/// than the sequence.
pub proof fn lemma_weight_items(s: Shape, count: nat)
    requires
        s is Array,
        1 <= count <= 0x7fff_ffff,
    ensures
        weight(*s->Array_1) + (count - 1) * (weight(*s->Array_1) + 1) < weight(s),
{
    let w = weight(*s->Array_1) + 1;
    assert((count - 1) * w + w == count * w) by (nonlinear_arith);
    assert(count * w <= 0x7fff_ffff * w) by (nonlinear_arith)
        requires
            count <= 0x7fff_ffff,
            w >= 0,
    {}
    assert(0x7fff_ffff * w <= 0x8000_0000 * w) by (nonlinear_arith)
        requires
            w >= 0,
    {}
}

/// One element fewer to come: what is pending shrinks by the element and a
/// step.
pub proof fn lemma_pending_item(elem: Shape, left: nat)
    requires
        left > 1,
    ensures
        (left - 1) * (weight(elem) + 1) == weight(elem) + 1 + (left - 2) * (weight(elem) + 1),
{
    let w = weight(elem) + 1;
    assert((left - 1) * w == w + (left - 2) * w) by (nonlinear_arith)
        requires
            left > 1,
    {}
}

/// A value that the walk has opened and not yet closed: what `FrameView`
/// describes, with the values read so far.
pub enum Frame<'a> {
    Optional,
    Union(u32),
    Record { fields: &'a Vec<Shape>, acc: Vec<Value> },
    Items { elem: &'a Shape, left: usize, acc: Vec<Value> },
}

impl<'a> View for Frame<'a> {
    type V = FrameView;

    open spec fn view(&self) -> FrameView {
        match self {
            Frame::Optional => FrameView::Optional,
            Frame::Union(k) => FrameView::Union(*k),
            Frame::Record { fields, acc } => FrameView::Record {
                fields: fields@,
                acc: models_of(acc@),
            },
            Frame::Items { elem, left, acc } => FrameView::Items {
                elem: **elem,
                left: *left as nat,
                acc: models_of(acc@),
            },
        }
    }
}

/// The views of the frames of a stack, outermost first.
pub open spec fn frames_of<'a>(stack: Seq<Frame<'a>>) -> Seq<FrameView> {
    Seq::new(stack.len(), |i: int| stack[i]@)
}

/// The steps still to come: those of the shape about to be read, if one is,
/// and those pending in the frames.
pub open spec fn ahead<'a>(carried: Option<Value>, cur: Shape, stack: Seq<Frame<'a>>) -> nat {
    (if carried is None {
        weight(cur)
    } else {
        0
    }) + pendings(frames_of(stack))
}

/// Whether a frame is one that the walk leaves on its stack: a record with
/// a field still open, or a sequence with an element still open.
pub open spec fn frame_open(f: FrameView) -> bool {
    match f {
        FrameView::Optional => true,
        FrameView::Union(_) => true,
        FrameView::Record { fields, acc } => acc.len() < fields.len(),
        FrameView::Items { elem, left, acc } => left >= 1,
    }
}

/// Whether every frame of a stack is open.
pub open spec fn all_open<'a>(stack: Seq<Frame<'a>>) -> bool {
    forall|i: int| 0 <= i < stack.len() ==> frame_open(#[trigger] stack[i]@)
}

/// What the walk yields from its state: the frames, the position, and either
/// the shape about to be read or the value just read.
pub open spec fn outcome<'a>(
    carried: Option<Value>,
    cur: Shape,
    stack: Seq<Frame<'a>>,
    b: Seq<u8>,
    pos: nat,
) -> Landed {
    match carried {
        None => finish(frames_of(stack), b, landing(cur, b, pos)),
        Some(v) => finish(frames_of(stack), b, Ok((v@, pos))),
    }
}

/// What one step down leaves behind: what the walk yields stays what it
/// was, and fewer steps are ahead; or the error that the walk yields.
pub open spec fn stepped_down<'a>(
    cur: Shape,
    b: Seq<u8>,
    pos: usize,
    before: Seq<Frame<'a>>,
    after: Seq<Frame<'a>>,
    r: Result<(Option<Value>, &'a Shape, usize), Error>,
) -> bool {
    match r {
        Err(e) => outcome(None, cur, before, b, pos as nat) == Err::<(ValueView, nat), Error>(e),
        Ok((carried, next, at)) => {
            &&& pos <= at <= b.len()
            &&& all_open(after)
            &&& outcome(carried, *next, after, b, at as nat) == outcome(
                None,
                cur,
                before,
                b,
                pos as nat,
            )
            &&& ahead(carried, *next, after) < ahead(None, cur, before)
        },
    }
}

/// One step down into an optional value: absence is read at once, presence
/// opens the payload.
fn descend_optional<'a>(cur: &'a Shape, src: &[u8], pos: usize, stack: &mut Vec<Frame<'a>>) -> (r: Result<
    (Option<Value>, &'a Shape, usize),
    Error,
>)
    requires
        pos <= src@.len(),
        all_open(old(stack)@),
        *cur is Optional,
    ensures
        stepped_down(*cur, src@, pos, old(stack)@, final(stack)@, r),
{
    let total: usize = src.len();
    let ghost b = src@;
    let ghost fv = frames_of(stack@);
    let ghost here = pos as nat;
    match cur {
        Shape::Optional(inner) => match peek_absent(src, pos) {
            Err(e) => {
                proof {
                    lemma_finish_error(fv, b, e);
                }
                Err(e)
            },
            Ok(true) => {
                proof {
                    lemma_skip_optional(*cur, b, here);
                }
                Ok((Some(Value::Optional(None)), cur, pos + 2))
            },
            Ok(false) => {
                proof {
                    lemma_open_optional(fv, b, *cur, here);
                    lemma_pendings_push(fv, FrameView::Optional);
                    assert(frames_of(stack@.push(Frame::Optional)) =~= fv.push(
                        FrameView::Optional,
                    ));
                }
                stack.push(Frame::Optional);
                Ok((None, inner, pos))
            },
        },
        _ => Err(Error::UnsupportedShape),
    }
}

/// One step down into a union: the tag is read and the alternative that it
/// selects is opened.
fn descend_union<'a>(cur: &'a Shape, src: &[u8], pos: usize, stack: &mut Vec<Frame<'a>>) -> (r: Result<
    (Option<Value>, &'a Shape, usize),
    Error,
>)
    requires
        pos <= src@.len(),
        all_open(old(stack)@),
        *cur is Union,
    ensures
        stepped_down(*cur, src@, pos, old(stack)@, final(stack)@, r),
{
    let total: usize = src.len();
    let ghost b = src@;
    let ghost fv = frames_of(stack@);
    let ghost here = pos as nat;
    match cur {
        Shape::Union(alts) => match parse_varint(src, pos) {
            Err(e) => {
                proof {
                    lemma_finish_error(fv, b, e);
                }
                Err(e)
            },
            Ok((tag, n)) => {
                let k: u64 = if tag < 0 {
                    (tag as i64 + 0x1_0000_0000) as u64
                } else {
                    tag as u64
                };
                if k >= alts.len() as u64 {
                    proof {
                        lemma_finish_error(fv, b, Error::UnsupportedShape);
                    }
                    return Err(Error::UnsupportedShape);
                }
                proof {
                    lemma_open_union(fv, b, *cur, here);
                    lemma_pendings_push(fv, FrameView::Union(k as u32));
                    lemma_weights_index(alts@, 0, k as nat);
                    assert(frames_of(stack@.push(Frame::Union(k as u32))) =~= fv.push(
                        FrameView::Union(k as u32),
                    ));
                }
                stack.push(Frame::Union(k as u32));
                Ok((None, &alts[k as usize], pos + n))
            },
        },
        _ => Err(Error::UnsupportedShape),
    }
}

/// One step down into a record: its first field is opened, or, without
/// fields, the record is read at once.
fn descend_record<'a>(cur: &'a Shape, src: &[u8], pos: usize, stack: &mut Vec<Frame<'a>>) -> (r: Result<
    (Option<Value>, &'a Shape, usize),
    Error,
>)
    requires
        pos <= src@.len(),
        all_open(old(stack)@),
        *cur is Record,
    ensures
        stepped_down(*cur, src@, pos, old(stack)@, final(stack)@, r),
{
    let total: usize = src.len();
    let ghost b = src@;
    let ghost fv = frames_of(stack@);
    let ghost here = pos as nat;
    match cur {
        Shape::Record(fs) => {
            if fs.len() == 0 {
                proof {
                    lemma_empty_record(*cur, b, here);
                    assert(weight(*cur) >= 1);
                }
                let none: Vec<Value> = Vec::new();
                proof {
                    assert(models_of(none@) =~= Seq::<ValueView>::empty());
                }
                Ok((Some(Value::Record(none)), cur, pos))
            } else {
                let acc: Vec<Value> = Vec::new();
                let frame = Frame::Record { fields: fs, acc };
                proof {
                    assert(models_of(acc@) =~= Seq::<ValueView>::empty());
                    lemma_open_record(fv, b, *cur, here);
                    lemma_pendings_push(fv, frame@);
                    assert(frames_of(stack@.push(frame)) =~= fv.push(frame@));
                    assert(weight(*cur) == 1 + weights(fs@, 0) + fs@.len());
                    assert(weights(fs@, 0) == weight(fs@[0]) + weights(fs@, 1));
                    assert(pending(frame@) == weights(fs@, 1) + (fs@.len() - 1));
                }
                stack.push(frame);
                Ok((None, &fs[0], pos))
            }
        },
        _ => Err(Error::UnsupportedShape),
    }
}

/// One step down into a sequence: its count is read and its first element is
/// opened, or, without elements, the sequence is read at once.
#[verifier::rlimit(60)]
fn descend_array<'a>(cur: &'a Shape, src: &[u8], pos: usize, stack: &mut Vec<Frame<'a>>) -> (r: Result<
    (Option<Value>, &'a Shape, usize),
    Error,
>)
    requires
        pos <= src@.len(),
        all_open(old(stack)@),
        *cur is Array,
    ensures
        stepped_down(*cur, src@, pos, old(stack)@, final(stack)@, r),
{
    let total: usize = src.len();
    let ghost b = src@;
    let ghost fv = frames_of(stack@);
    let ghost here = pos as nat;
    match cur {
        Shape::Array(p, elem) => match parse_count(*p, src, pos) {
            Err(e) => {
                proof {
                    lemma_finish_error(fv, b, e);
                }
                Err(e)
            },
            Ok((count, n)) => {
                if count < 0 {
                    proof {
                        lemma_finish_error(fv, b, Error::TruncatedInput);
                    }
                    return Err(Error::TruncatedInput);
                }
                if count == 0 {
                    proof {
                        lemma_empty_items(*cur, b, here);
                    }
                    let none: Vec<Value> = Vec::new();
                    proof {
                        assert(models_of(none@) =~= Seq::<ValueView>::empty());
                    }
                    Ok((Some(Value::Array(none)), cur, pos + n))
                } else {
                    let acc: Vec<Value> = Vec::new();
                    let frame = Frame::Items { elem, left: count as usize, acc };
                    proof {
                        assert(models_of(acc@) =~= Seq::<ValueView>::empty());
                        lemma_open_items(fv, b, *cur, here);
                        lemma_pendings_push(fv, frame@);
                        lemma_weight_items(*cur, count as nat);
                        assert(frames_of(stack@.push(frame)) =~= fv.push(frame@));
                    }
                    stack.push(frame);
                    Ok((None, elem, pos + n))
                }
            },
        },
        _ => Err(Error::UnsupportedShape),
    }
}

/// One step down at a value that holds no other: it is read outright.
fn descend_flat<'a>(cur: &'a Shape, src: &[u8], pos: usize, stack: &mut Vec<Frame<'a>>) -> (r:
    Result<(Option<Value>, &'a Shape, usize), Error>)
    requires
        pos <= src@.len(),
        all_open(old(stack)@),
        !(*cur is Optional || *cur is Union || *cur is Record || *cur is Array),
    ensures
        stepped_down(*cur, src@, pos, old(stack)@, final(stack)@, r),
{
    let total: usize = src.len();
    let ghost b = src@;
    let ghost fv = frames_of(stack@);
    let ghost here = pos as nat;
    match decode_flat_at(cur, src, pos) {
        Err(e) => {
            proof {
                lemma_finish_error(fv, b, e);
            }
            Err(e)
        },
        Ok((v, n)) => Ok((Some(v), cur, pos + n)),
    }
}

/// One step down: reads the count, the tag or the marker of the shape at
/// hand and opens it, or reads its value outright.
fn descend<'a>(cur: &'a Shape, src: &[u8], pos: usize, stack: &mut Vec<Frame<'a>>) -> (r: Result<
    (Option<Value>, &'a Shape, usize),
    Error,
>)
    requires
        pos <= src@.len(),
        all_open(old(stack)@),
    ensures
        stepped_down(*cur, src@, pos, old(stack)@, final(stack)@, r),
{
    match cur {
        Shape::Optional(_) => descend_optional(cur, src, pos, stack),
        Shape::Union(_) => descend_union(cur, src, pos, stack),
        Shape::Record(_) => descend_record(cur, src, pos, stack),
        Shape::Array(_, _) => descend_array(cur, src, pos, stack),
        _ => descend_flat(cur, src, pos, stack),
    }
}

/// One step up: closes the innermost frame around the value just read, or
/// moves on to the next field or element of it. What the walk yields stays
/// what it was; either fewer steps are ahead, or as many with a frame fewer.
fn ascend<'a>(v: Value, cur: &'a Shape, src: &[u8], pos: usize, stack: &mut Vec<Frame<'a>>) -> (r:
    (Option<Value>, &'a Shape))
    requires
        pos <= src@.len(),
        old(stack)@.len() > 0,
        all_open(old(stack)@),
    ensures
        all_open(final(stack)@),
        outcome(r.0, *r.1, final(stack)@, src@, pos as nat) == outcome(
            Some(v),
            *cur,
            old(stack)@,
            src@,
            pos as nat,
        ),
        ahead(r.0, *r.1, final(stack)@) < ahead(Some(v), *cur, old(stack)@) || (ahead(
            r.0,
            *r.1,
            final(stack)@,
        ) == ahead(Some(v), *cur, old(stack)@) && final(stack)@.len() < old(stack)@.len()),
{
    let ghost b = src@;
    let ghost fv = frames_of(stack@);
    let ghost here = pos as nat;
    let frame = match stack.pop() {
        Some(frame) => frame,
        None => Frame::Optional,
    };
    let ghost rest = frames_of(stack@);
    proof {
        assert(fv =~= rest.push(frame@));
        lemma_pendings_push(rest, frame@);
        lemma_finish_push(rest, frame@, b, Ok((v@, here)));
        assert(frame_open(old(stack)@[old(stack)@.len() - 1]@));
    }
    match frame {
        Frame::Optional => (Some(Value::Optional(Some(Box::new(v)))), cur),
        Frame::Union(k) => (Some(Value::Union(k, Box::new(v))), cur),
        Frame::Record { fields, acc } => {
            let ghost before = models_of(acc@);
            let mut acc = acc;
            proof {
                lemma_models_push(acc@, v);
                assert(before.len() == acc@.len());
            }
            acc.push(v);
            if acc.len() == fields.len() {
                proof {
                    lemma_last_field(rest, b, fields@, before, v@, here);
                }
                (Some(Value::Record(acc)), cur)
            } else {
                let next: usize = acc.len();
                let again = Frame::Record { fields, acc };
                proof {
                    lemma_next_field(rest, b, fields@, before, v@, here);
                    lemma_pendings_push(rest, again@);
                    assert(frames_of(stack@.push(again)) =~= rest.push(again@));
                }
                stack.push(again);
                (None, &fields[next])
            }
        },
        Frame::Items { elem, left, acc } => {
            let ghost before = models_of(acc@);
            let mut acc = acc;
            proof {
                lemma_models_push(acc@, v);
            }
            acc.push(v);
            if left == 1 {
                proof {
                    lemma_last_item(rest, b, *elem, before, v@, here);
                }
                (Some(Value::Array(acc)), cur)
            } else {
                let again = Frame::Items { elem, left: left - 1, acc };
                proof {
                    lemma_next_item(rest, b, *elem, left as nat, before, v@, here);
                    lemma_pending_item(*elem, left as nat);
                    lemma_pendings_push(rest, again@);
                    assert(frames_of(stack@.push(again)) =~= rest.push(again@));
                }
                stack.push(again);
                (None, elem)
            }
        },
    }
}

/// Reads a value of the given shape from `src`, starting at `start`, keeping
/// the values it has opened on a stack of its own: however deep the shape
/// nests, the walk takes one loop and no recursion. Returns the value and
/// the number of bytes it took. The walk stops at the first error and hands
/// out no partial value.
pub fn decode_walk<'a>(shape: &'a Shape, src: &[u8], start: usize) -> (r: Result<
    (Value, usize),
    Error,
>)
    requires
        start <= src@.len(),
    ensures
        match decode(*shape, src@.skip(start as int)) {
            Ok((v, n)) => r is Ok && r->Ok_0.0@ == v && r->Ok_0.1 == n && start + n
                <= src@.len(),
            Err(e) => r == Err::<(Value, usize), Error>(e),
        },
{
    let ghost goal = landing(*shape, src@, start as nat);
    let mut stack: Vec<Frame<'a>> = Vec::new();
    let mut pos: usize = start;
    let mut cur: &'a Shape = shape;
    let mut carried: Option<Value> = None;
    proof {
        assert(frames_of(stack@) =~= Seq::<FrameView>::empty());
    }
    loop
        invariant
            start <= pos <= src@.len(),
            all_open(stack@),
            goal == landing(*shape, src@, start as nat),
            goal == outcome(carried, *cur, stack@, src@, pos as nat),
        decreases ahead(carried, *cur, stack@), stack@.len(),
    {
        match carried {
            None => match descend(cur, src, pos, &mut stack) {
                Err(e) => {
                    return Err(e);
                },
                Ok((next_carried, next, at)) => {
                    carried = next_carried;
                    cur = next;
                    pos = at;
                },
            },
            Some(v) => {
                if stack.len() == 0 {
                    proof {
                        assert(frames_of(stack@) =~= Seq::<FrameView>::empty());
                    }
                    return Ok((v, pos - start));
                }
                let (next_carried, next) = ascend(v, cur, src, pos, &mut stack);
                carried = next_carried;
                cur = next;
            },
        }
    }
}

} // verus!
