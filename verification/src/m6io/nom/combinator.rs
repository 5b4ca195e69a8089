//! Combinators that repeat a recogniser or make it optional. All of them
//! take the input as complete: a recogniser that asks for more input counts
//! as one that did not match.

use super::byte::{Error, ErrorKind, IResult, ParseErr};
use vstd::prelude::*;

verus! {

/// What `res` becomes where no more input can come: the need for more input
/// is a mismatch of the code `Complete` on `input`, and everything else
/// stays.
pub open spec fn spec_complete<'a, O>(input: &'a [u8], res: IResult<'a, O>) -> IResult<'a, O> {
    match res {
        Err(ParseErr::Incomplete(_)) => Err(
            ParseErr::Error(Error { input, code: ErrorKind::Complete }),
        ),
        _ => res,
    }
}

/// Turns the need for more input into a mismatch on `input`.
pub fn complete<'a, O>(input: &'a [u8], res: IResult<'a, O>) -> (out: IResult<'a, O>)
    ensures
        out == spec_complete(input, res),
{
    match res {
        Err(ParseErr::Incomplete(_)) => Err(
            ParseErr::Error(Error { input, code: ErrorKind::Complete }),
        ),
        other => other,
    }
}

/// Recognises nothing: all of `input` is left, and the empty front of it is
/// what was recognised.
pub fn empty<'a>(input: &'a [u8]) -> (res: IResult<'a, &'a [u8]>)
    ensures
        res matches Ok((rest, nothing)) && rest == input && nothing@ == Seq::<u8>::empty(),
{
    Ok((input, vstd::slice::slice_subrange(input, 0, 0)))
}

/// What an optional recogniser makes of `last`, the result of the
/// recogniser on `input`: a mismatch is no result and takes no input.
pub open spec fn spec_opt<'a, O>(input: &'a [u8], last: IResult<'a, O>) -> IResult<'a, Option<O>> {
    match spec_complete(input, last) {
        Ok((rest, o)) => Ok((rest, Some(o))),
        Err(ParseErr::Failure(e)) => Err(ParseErr::Failure(e)),
        Err(_) => Ok((input, None)),
    }
}

/// Makes `last`, the result of a recogniser on `input`, optional.
pub fn opt_of<'a, O>(input: &'a [u8], last: IResult<'a, O>) -> (res: IResult<'a, Option<O>>)
    ensures
        res == spec_opt(input, last),
{
    match complete(input, last) {
        Ok((rest, o)) => Ok((rest, Some(o))),
        Err(ParseErr::Failure(e)) => Err(ParseErr::Failure(e)),
        Err(_) => Ok((input, None)),
    }
}

/// Applies `f` to `input` and makes its result optional.
pub fn on_guard_opt<'a, O, F: Fn(&'a [u8]) -> IResult<'a, O>>(f: &F, input: &'a [u8]) -> (res:
    IResult<'a, Option<O>>)
    requires
        f.requires((input,)),
    ensures
        exists|last: IResult<'a, O>| #[trigger]
            f.ensures((input,), last) && res == spec_opt(input, last),
{
    opt_of(input, f(input))
}

/// Whether `f` went from each input of `inputs` to the next, taking some of
/// it and giving the result at the same place in `outs`.
pub open spec fn is_steps<'a, O, F: Fn(&'a [u8]) -> IResult<'a, O>>(
    f: &F,
    inputs: Seq<&'a [u8]>,
    outs: Seq<O>,
) -> bool {
    &&& inputs.len() == outs.len() + 1
    &&& forall|k: int|
        0 <= k < outs.len() ==> #[trigger] f.ensures((inputs[k],), Ok((inputs[k + 1], outs[k])))
            && inputs[k + 1]@.len() != inputs[k]@.len()
}

/// Whether `f` never gives back more input than it got.
pub open spec fn never_grows<'a, O, F: Fn(&'a [u8]) -> IResult<'a, O>>(f: &F) -> bool {
    forall|i: &'a [u8], rest: &'a [u8], o: O| #[trigger]
        f.ensures((i,), Ok((rest, o))) ==> rest@.len() <= i@.len()
}

/// Whether `f` can be applied to every input.
pub open spec fn always_applies<'a, O, F: Fn(&'a [u8]) -> IResult<'a, O>>(f: &F) -> bool {
    forall|i: &'a [u8]| #[trigger] f.requires((i,))
}

/// How a repetition ends at the input `at`, with the results `outs`
/// gathered, on the result `last` of one more application: a mismatch ends
/// it well, a failure is handed on, and a match that took no input is a
/// mismatch of the code `Many0`.
pub open spec fn spec_many0_end<'a, O>(at: &'a [u8], outs: Seq<O>, last: IResult<'a, O>, res: IResult<
    'a,
    Vec<O>,
>) -> bool {
    match spec_complete(at, last) {
        Ok((rest, _)) => rest@.len() == at@.len() && (res matches Err(ParseErr::Error(e))
            && e.input == at && e.code == ErrorKind::Many0),
        Err(ParseErr::Failure(e)) => res matches Err(ParseErr::Failure(e2)) && e2 == e,
        Err(_) => res matches Ok((rest, v)) && rest == at && v@ == outs,
    }
}

/// Whether `res` is what repeating `f` from `input` on gives, with the
/// results `head` gathered before: `f` went through `inputs` giving `outs`,
/// and ended on `last`.
pub open spec fn is_many0<'a, O, F: Fn(&'a [u8]) -> IResult<'a, O>>(
    f: &F,
    input: &'a [u8],
    head: Seq<O>,
    inputs: Seq<&'a [u8]>,
    outs: Seq<O>,
    last: IResult<'a, O>,
    res: IResult<'a, Vec<O>>,
) -> bool {
    &&& is_steps(f, inputs, outs)
    &&& inputs[0] == input
    &&& f.ensures((inputs.last(),), last)
    &&& spec_many0_end(inputs.last(), head + outs, last, res)
}

/// Applies `f` again and again, each time to what the last application
/// left, until it does not match, and gathers the results.
pub fn on_guard_many0<'a, O, F: Fn(&'a [u8]) -> IResult<'a, O>>(f: &F, input: &'a [u8]) -> (res:
    IResult<'a, Vec<O>>)
    requires
        always_applies(f),
        never_grows(f),
    ensures
        exists|inputs: Seq<&'a [u8]>, outs: Seq<O>, last: IResult<'a, O>| #[trigger]
            is_many0(f, input, Seq::<O>::empty(), inputs, outs, last, res),
{
    many_from(f, input, Vec::new())
}

/// Repeats `f` from `input` on, with the results `head` gathered before.
fn many_from<'a, O, F: Fn(&'a [u8]) -> IResult<'a, O>>(f: &F, input: &'a [u8], head: Vec<O>) -> (res:
    IResult<'a, Vec<O>>)
    requires
        always_applies(f),
        never_grows(f),
    ensures
        exists|inputs: Seq<&'a [u8]>, outs: Seq<O>, last: IResult<'a, O>| #[trigger]
            is_many0(f, input, head@, inputs, outs, last, res),
{
    let mut i: &'a [u8] = input;
    let mut acc: Vec<O> = head;
    let ghost mut inputs = Seq::<&'a [u8]>::empty().push(input);
    let ghost mut outs = Seq::<O>::empty();
    assert(acc@ =~= head@ + outs);
    loop
        invariant
            always_applies(f),
            never_grows(f),
            is_steps(f, inputs, outs),
            inputs[0] == input,
            inputs.last() == i,
            acc@ == head@ + outs,
        decreases i@.len(),
    {
        let len: usize = i.len();
        assert(f.requires((i,)));
        let last = f(i);
        match complete(i, last) {
            Ok((i1, o)) => {
                if i1.len() == len {
                    let res = Err(ParseErr::Error(Error { input: i, code: ErrorKind::Many0 }));
                    assert(is_many0(f, input, head@, inputs, outs, last, res));
                    return res;
                }
                proof {
                    let before = inputs;
                    let had = outs;
                    inputs = inputs.push(i1);
                    outs = outs.push(o);
                    assert forall|k: int| 0 <= k < outs.len() implies #[trigger] f.ensures(
                        (inputs[k],),
                        Ok((inputs[k + 1], outs[k])),
                    ) && inputs[k + 1]@.len() != inputs[k]@.len() by {
                        if k < had.len() {
                            assert(f.ensures((before[k],), Ok((before[k + 1], had[k]))));
                        }
                    }
                    assert(acc@.push(o) =~= head@ + outs);
                }
                acc.push(o);
                i = i1;
            },
            Err(ParseErr::Failure(e)) => {
                let res = Err(ParseErr::Failure(e));
                assert(is_many0(f, input, head@, inputs, outs, last, res));
                return res;
            },
            Err(_) => {
                let res = Ok((i, acc));
                assert(is_many0(f, input, head@, inputs, outs, last, res));
                return res;
            },
        }
    }
}

/// Whether `res` is what repeating `f` at least once on `input` gives,
/// where `first` is the result of the first application: a first mismatch
/// is the mismatch of the repetition, and after a first match the
/// repetition goes on from what it left.
pub open spec fn is_many1<'a, O, F: Fn(&'a [u8]) -> IResult<'a, O>>(
    f: &F,
    input: &'a [u8],
    first: IResult<'a, O>,
    res: IResult<'a, Vec<O>>,
) -> bool {
    &&& f.ensures((input,), first)
    &&& match spec_complete(input, first) {
        Ok((rest, o)) => exists|inputs: Seq<&'a [u8]>, outs: Seq<O>, last: IResult<'a, O>| #[trigger]
            is_many0(f, rest, Seq::<O>::empty().push(o), inputs, outs, last, res),
        Err(e) => res matches Err(e2) && e2 == e,
    }
}

/// Applies `f` again and again until it does not match, and gathers the
/// results, of which there must be one at least.
pub fn on_guard_many1<'a, O, F: Fn(&'a [u8]) -> IResult<'a, O>>(f: &F, input: &'a [u8]) -> (res:
    IResult<'a, Vec<O>>)
    requires
        always_applies(f),
        never_grows(f),
    ensures
        exists|first: IResult<'a, O>| #[trigger] is_many1(f, input, first, res),
{
    assert(f.requires((input,)));
    let first = f(input);
    match complete(input, first) {
        Err(e) => {
            let res = Err(e);
            assert(is_many1(f, input, first, res));
            res
        },
        Ok((rest, o)) => {
            let mut head: Vec<O> = Vec::new();
            head.push(o);
            assert(head@ =~= Seq::<O>::empty().push(o));
            let res = many_from(f, rest, head);
            assert(is_many1(f, input, first, res));
            res
        },
    }
}

/// How a repetition of `min` to `max` times ends at the input `at`, with
/// the results `outs` gathered: well where `max` results are there; else on
/// the result `last` of one more application, where a mismatch ends it well
/// if `min` results are there and is the mismatch of the repetition if not,
/// a failure is handed on, and a match that took no input is a mismatch of
/// the code `ManyMN`.
pub open spec fn spec_many_m_n_end<'a, O>(
    min: usize,
    max: usize,
    at: &'a [u8],
    outs: Seq<O>,
    last: IResult<'a, O>,
    res: IResult<'a, Vec<O>>,
) -> bool {
    if outs.len() >= max {
        res matches Ok((rest, v)) && rest == at && v@ == outs
    } else {
        match spec_complete(at, last) {
            Ok((rest, _)) => rest@.len() == at@.len() && (res matches Err(ParseErr::Error(e))
                && e.input == at && e.code == ErrorKind::ManyMN),
            Err(ParseErr::Error(e)) => if outs.len() < min {
                res matches Err(ParseErr::Error(e2)) && e2 == e
            } else {
                res matches Ok((rest, v)) && rest == at && v@ == outs
            },
            Err(e) => res matches Err(e2) && e2 == e,
        }
    }
}

/// Whether `res` is what repeating `f` from `min` to `max` times on `input`
/// gives: `f` went through `inputs` giving `outs`, and ended there or on
/// `last`.
pub open spec fn is_many_m_n<'a, O, F: Fn(&'a [u8]) -> IResult<'a, O>>(
    f: &F,
    min: usize,
    max: usize,
    input: &'a [u8],
    inputs: Seq<&'a [u8]>,
    outs: Seq<O>,
    last: IResult<'a, O>,
    res: IResult<'a, Vec<O>>,
) -> bool {
    if min > max {
        res matches Err(ParseErr::Failure(e)) && e.input == input && e.code == ErrorKind::ManyMN
    } else {
        &&& is_steps(f, inputs, outs)
        &&& inputs[0] == input
        &&& outs.len() <= max
        &&& outs.len() < max ==> f.ensures((inputs.last(),), last)
        &&& spec_many_m_n_end(min, max, inputs.last(), outs, last, res)
    }
}

/// Applies `parser` again and again, up to `max` times, until it does not
/// match, and gathers the results, of which there must be `min` at least.
pub fn on_guard_many_m_n<'a, O, F: Fn(&'a [u8]) -> IResult<'a, O>>(
    min: usize,
    max: usize,
    parser: &F,
    input: &'a [u8],
) -> (res: IResult<'a, Vec<O>>)
    requires
        always_applies(parser),
        never_grows(parser),
    ensures
        exists|inputs: Seq<&'a [u8]>, outs: Seq<O>, last: IResult<'a, O>| #[trigger]
            is_many_m_n(parser, min, max, input, inputs, outs, last, res),
{
    if min > max {
        let res: IResult<'a, Vec<O>> = Err(
            ParseErr::Failure(Error { input, code: ErrorKind::ManyMN }),
        );
        proof {
            let any: IResult<'a, O> = Err(ParseErr::Incomplete(0));
            assert(is_many_m_n(
                parser,
                min,
                max,
                input,
                Seq::<&'a [u8]>::empty(),
                Seq::<O>::empty(),
                any,
                res,
            ));
        }
        return res;
    }
    let mut i: &'a [u8] = input;
    let mut acc: Vec<O> = Vec::new();
    let ghost mut inputs = Seq::<&'a [u8]>::empty().push(input);
    let mut count: usize = 0;
    while count < max
        invariant
            min <= max,
            count <= max,
            always_applies(parser),
            never_grows(parser),
            is_steps(parser, inputs, acc@),
            inputs[0] == input,
            inputs.last() == i,
            acc@.len() == count,
        decreases max - count,
    {
        let len: usize = i.len();
        assert(parser.requires((i,)));
        let last = parser(i);
        match complete(i, last) {
            Ok((tail, value)) => {
                if tail.len() == len {
                    let res = Err(ParseErr::Error(Error { input: i, code: ErrorKind::ManyMN }));
                    assert(is_many_m_n(parser, min, max, input, inputs, acc@, last, res));
                    return res;
                }
                proof {
                    let before = inputs;
                    let had = acc@;
                    inputs = inputs.push(tail);
                    assert forall|k: int| 0 <= k < had.len() + 1 implies #[trigger] parser.ensures(
                        (inputs[k],),
                        Ok((inputs[k + 1], had.push(value)[k])),
                    ) && inputs[k + 1]@.len() != inputs[k]@.len() by {
                        if k < had.len() {
                            assert(parser.ensures((before[k],), Ok((before[k + 1], had[k]))));
                        }
                    }
                }
                acc.push(value);
                i = tail;
            },
            Err(ParseErr::Error(e)) => {
                if count < min {
                    let res = Err(ParseErr::Error(e));
                    assert(is_many_m_n(parser, min, max, input, inputs, acc@, last, res));
                    return res;
                } else {
                    let ghost outs = acc@;
                    let res = Ok((i, acc));
                    assert(is_many_m_n(parser, min, max, input, inputs, outs, last, res));
                    return res;
                }
            },
            Err(e) => {
                let res = Err(e);
                assert(is_many_m_n(parser, min, max, input, inputs, acc@, last, res));
                return res;
            },
        }
        count += 1;
    }
    let ghost outs = acc@;
    let res = Ok((i, acc));
    proof {
        let any: IResult<'a, O> = Err(ParseErr::Incomplete(0));
        assert(is_many_m_n(parser, min, max, input, inputs, outs, any, res));
    }
    res
}

/// Whether `g` folded the results `outs` one by one, going through the
/// values `accs`.
pub open spec fn is_folds<O, R, G: Fn(R, O) -> R>(g: &G, accs: Seq<R>, outs: Seq<O>) -> bool {
    &&& accs.len() == outs.len() + 1
    &&& forall|k: int|
        0 <= k < outs.len() ==> #[trigger] g.ensures((accs[k], outs[k]), accs[k + 1])
}

/// Whether `g` can be applied to every pair of a value and a result.
pub open spec fn always_folds<O, R, G: Fn(R, O) -> R>(g: &G) -> bool {
    forall|acc: R, o: O| #[trigger] g.requires((acc, o))
}

/// How a folding repetition ends at the input `at`, with the value `acc`
/// folded, on the result `last` of one more application: a mismatch ends it
/// well, any other failure is handed on, and a match that took no input is
/// a mismatch of the code `code`.
pub open spec fn spec_fold_end<'a, O, R>(
    code: ErrorKind,
    at: &'a [u8],
    acc: R,
    last: IResult<'a, O>,
    res: IResult<'a, R>,
) -> bool {
    match spec_complete(at, last) {
        Ok((rest, _)) => rest@.len() == at@.len() && (res matches Err(ParseErr::Error(e))
            && e.input == at && e.code == code),
        Err(ParseErr::Error(_)) => res matches Ok((rest, r)) && rest == at && r == acc,
        Err(e) => res matches Err(e2) && e2 == e,
    }
}

/// Whether `res` is what folding the repetition of `f` from `input` on
/// gives, with `start` as the first value: `f` went through `inputs` giving
/// `outs`, which `g` folded through `accs`, and ended on `last`.
pub open spec fn is_fold<'a, O, R, F: Fn(&'a [u8]) -> IResult<'a, O>, G: Fn(R, O) -> R>(
    f: &F,
    g: &G,
    code: ErrorKind,
    input: &'a [u8],
    start: R,
    inputs: Seq<&'a [u8]>,
    outs: Seq<O>,
    accs: Seq<R>,
    last: IResult<'a, O>,
    res: IResult<'a, R>,
) -> bool {
    &&& is_steps(f, inputs, outs)
    &&& inputs[0] == input
    &&& is_folds(g, accs, outs)
    &&& accs[0] == start
    &&& f.ensures((inputs.last(),), last)
    &&& spec_fold_end(code, inputs.last(), accs.last(), last, res)
}

/// Repeats `f` from `input` on and folds its results into `start` with `g`.
fn fold_from<'a, O, R, F: Fn(&'a [u8]) -> IResult<'a, O>, G: Fn(R, O) -> R>(
    f: &F,
    g: &G,
    code: ErrorKind,
    input: &'a [u8],
    start: R,
) -> (res: IResult<'a, R>)
    requires
        always_applies(f),
        never_grows(f),
        always_folds(g),
    ensures
        exists|inputs: Seq<&'a [u8]>, outs: Seq<O>, accs: Seq<R>, last: IResult<'a, O>| #[trigger]
            is_fold(f, g, code, input, start, inputs, outs, accs, last, res),
{
    let mut i: &'a [u8] = input;
    let mut acc: R = start;
    let ghost mut inputs = Seq::<&'a [u8]>::empty().push(input);
    let ghost mut outs = Seq::<O>::empty();
    let ghost mut accs = Seq::<R>::empty().push(start);
    loop
        invariant
            always_applies(f),
            never_grows(f),
            always_folds(g),
            is_steps(f, inputs, outs),
            inputs[0] == input,
            inputs.last() == i,
            is_folds(g, accs, outs),
            accs[0] == start,
            accs.last() == acc,
        decreases i@.len(),
    {
        let len: usize = i.len();
        assert(f.requires((i,)));
        let last = f(i);
        match complete(i, last) {
            Ok((i1, o)) => {
                if i1.len() == len {
                    let res = Err(ParseErr::Error(Error { input: i, code }));
                    assert(is_fold(f, g, code, input, start, inputs, outs, accs, last, res));
                    return res;
                }
                assert(g.requires((acc, o)));
                let ghost was = acc;
                acc = g(acc, o);
                proof {
                    let before = inputs;
                    let had = outs;
                    let folded = accs;
                    inputs = inputs.push(i1);
                    outs = outs.push(o);
                    accs = accs.push(acc);
                    assert forall|k: int| 0 <= k < outs.len() implies #[trigger] f.ensures(
                        (inputs[k],),
                        Ok((inputs[k + 1], outs[k])),
                    ) && inputs[k + 1]@.len() != inputs[k]@.len() by {
                        if k < had.len() {
                            assert(f.ensures((before[k],), Ok((before[k + 1], had[k]))));
                        }
                    }
                    assert forall|k: int| 0 <= k < outs.len() implies #[trigger] g.ensures(
                        (accs[k], outs[k]),
                        accs[k + 1],
                    ) by {
                        if k < had.len() {
                            assert(g.ensures((folded[k], had[k]), folded[k + 1]));
                        } else {
                            assert(accs[k] == was);
                        }
                    }
                }
                i = i1;
            },
            Err(ParseErr::Error(_)) => {
                let res = Ok((i, acc));
                assert(is_fold(f, g, code, input, start, inputs, outs, accs, last, res));
                return res;
            },
            Err(e) => {
                let res = Err(e);
                assert(is_fold(f, g, code, input, start, inputs, outs, accs, last, res));
                return res;
            },
        }
    }
}

/// Applies `parser` again and again until it does not match, and folds the
/// results with `g` into the value that `init` gives.
pub fn on_guard_fold_many0<
    'a,
    O,
    R,
    F: Fn(&'a [u8]) -> IResult<'a, O>,
    G: Fn(R, O) -> R,
    H: Fn() -> R,
>(parser: &F, init: &H, g: &G, input: &'a [u8]) -> (res: IResult<'a, R>)
    requires
        always_applies(parser),
        never_grows(parser),
        always_folds(g),
        init.requires(()),
    ensures
        exists|start: R, inputs: Seq<&'a [u8]>, outs: Seq<O>, accs: Seq<R>, last: IResult<'a, O>|
            init.ensures((), start) && #[trigger] is_fold(
                parser,
                g,
                ErrorKind::Many0,
                input,
                start,
                inputs,
                outs,
                accs,
                last,
                res,
            ),
{
    let start = init();
    fold_from(parser, g, ErrorKind::Many0, input, start)
}

/// Whether `res` is what folding the repetition of `f` at least once on
/// `input` gives, where `first` is the result of the first application and
/// `start` the first value: a first mismatch is a mismatch of the code
/// `Many1` on all of the input, and after a first match the folding goes
/// on from what it left with `begun`, the first result folded in.
pub open spec fn is_fold1<'a, O, R, F: Fn(&'a [u8]) -> IResult<'a, O>, G: Fn(R, O) -> R>(
    f: &F,
    g: &G,
    input: &'a [u8],
    start: R,
    first: IResult<'a, O>,
    begun: R,
    res: IResult<'a, R>,
) -> bool {
    &&& f.ensures((input,), first)
    &&& match spec_complete(input, first) {
        Ok((rest, o)) => g.ensures((start, o), begun) && exists|
            inputs: Seq<&'a [u8]>,
            outs: Seq<O>,
            accs: Seq<R>,
            last: IResult<'a, O>,
        | #[trigger]
            is_fold(f, g, ErrorKind::Many1, rest, begun, inputs, outs, accs, last, res),
        Err(ParseErr::Error(_)) => res matches Err(ParseErr::Error(e)) && e.input == input
            && e.code == ErrorKind::Many1,
        Err(e) => res matches Err(e2) && e2 == e,
    }
}

/// Applies `parser` again and again until it does not match, at least
/// once, and folds the results with `g` into the value that `init` gives.
pub fn on_guard_fold_many1<
    'a,
    O,
    R,
    F: Fn(&'a [u8]) -> IResult<'a, O>,
    G: Fn(R, O) -> R,
    H: Fn() -> R,
>(parser: &F, init: &H, g: &G, input: &'a [u8]) -> (res: IResult<'a, R>)
    requires
        always_applies(parser),
        never_grows(parser),
        always_folds(g),
        init.requires(()),
    ensures
        exists|start: R, first: IResult<'a, O>, begun: R|
            init.ensures((), start) && #[trigger] is_fold1(
                parser,
                g,
                input,
                start,
                first,
                begun,
                res,
            ),
{
    let start = init();
    assert(parser.requires((input,)));
    let first = parser(input);
    match complete(input, first) {
        Err(ParseErr::Error(_)) => {
            let res = Err(ParseErr::Error(Error { input, code: ErrorKind::Many1 }));
            assert(is_fold1(parser, g, input, start, first, start, res));
            res
        },
        Err(e) => {
            let res = Err(e);
            assert(is_fold1(parser, g, input, start, first, start, res));
            res
        },
        Ok((rest, o)) => {
            assert(g.requires((start, o)));
            let begun = g(start, o);
            let res = fold_from(parser, g, ErrorKind::Many1, rest, begun);
            assert(is_fold1(parser, g, input, start, first, begun, res));
            res
        },
    }
}

} // verus!
