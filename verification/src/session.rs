//! Runs of the driver: what it asks for as a whole sequence of events
//! arrives, and the laws that hold of a session with an engine that answers
//! every instruction.

use crate::command::CommandView;
use crate::driver::{
    initial, next, published, ActionView, DriverView, EventView, Phase, EVAL_LINES, INTRO_LINES,
};
use crate::eval::{eval_of_block, score_field, EvalError, EvalView};
use crate::driver::EvalFailure;
use crate::numeral::is_numeral;
use crate::options::{option_of_line, OptionView};
use crate::text::{concat, fed, law_lines_of_fed_texts, no_line_feeds};
use vstd::prelude::*;

verus! {

/// The driver after the events `events`, and the actions that it asked for
/// on the way, one for each event.
pub open spec fn run(d: DriverView, events: Seq<EventView>) -> (DriverView, Seq<ActionView>)
    decreases events.len(),
{
    if events.len() == 0 {
        (d, Seq::empty())
    } else {
        let (d1, a) = next(d, events[0]);
        let (d2, rest) = run(d1, events.drop_first());
        (d2, seq![a] + rest)
    }
}

/// The texts that the actions `actions` write to the engine, in order.
pub open spec fn written(actions: Seq<ActionView>) -> Seq<Seq<char>>
    decreases actions.len(),
{
    if actions.len() == 0 {
        Seq::empty()
    } else {
        let rest = written(actions.drop_first());
        match actions[0] {
            ActionView::Write(text) => seq![text] + rest,
            _ => rest,
        }
    }
}

/// The events that report the lines `lines` as read, one by one.
pub open spec fn lines_read(lines: Seq<Seq<char>>) -> Seq<EventView> {
    Seq::new(lines.len(), |i: int| EventView::Line(lines[i]))
}

/// How many lines the driver reads after the instruction of `c`.
pub open spec fn reply_lines(c: CommandView) -> nat {
    match c {
        CommandView::StopAnalysis => 1,
        CommandView::RequestEvaluation => EVAL_LINES as nat,
        _ => 0,
    }
}

/// The events of one exchange that goes well: the command `c` is taken
/// from the queue, its instruction is written, the engine's `reply` is read
/// line by line and, for an evaluation, the result is published.
pub open spec fn exchange(c: CommandView, reply: Seq<Seq<char>>) -> Seq<EventView> {
    seq![EventView::Command(c), EventView::Written] + lines_read(reply) + if c
        is RequestEvaluation {
        seq![EventView::Published]
    } else {
        Seq::empty()
    }
}

/// The events of the exchanges for the commands `cs`, one after the other,
/// `replies[i]` being the engine's reply to `cs[i]`.
pub open spec fn session(cs: Seq<CommandView>, replies: Seq<Seq<Seq<char>>>) -> Seq<EventView>
    decreases cs.len(),
{
    if cs.len() == 0 {
        Seq::empty()
    } else {
        exchange(cs[0], replies[0]) + session(cs.drop_first(), replies.drop_first())
    }
}

/// The instructions of the commands `cs`, in order.
pub open spec fn instructions(cs: Seq<CommandView>) -> Seq<Seq<char>> {
    Seq::new(cs.len(), |i: int| cs[i].instruction())
}

/// A run on `xs` followed by `ys` is the run on `xs`, then the run on `ys`
/// from where the first ended.
pub proof fn lemma_run_concat(d: DriverView, xs: Seq<EventView>, ys: Seq<EventView>)
    ensures
        run(d, xs + ys) == ({
            let (d1, a1) = run(d, xs);
            let (d2, a2) = run(d1, ys);
            (d2, a1 + a2)
        }),
    decreases xs.len(),
{
    if xs.len() == 0 {
        assert(xs + ys =~= ys);
        assert(Seq::<ActionView>::empty() + run(d, ys).1 =~= run(d, ys).1);
    } else {
        let (d1, a) = next(d, xs[0]);
        assert((xs + ys)[0] == xs[0]);
        assert((xs + ys).drop_first() =~= xs.drop_first() + ys);
        lemma_run_concat(d1, xs.drop_first(), ys);
        let (d2, a1) = run(d1, xs.drop_first());
        let (d3, a2) = run(d2, ys);
        assert(seq![a] + (a1 + a2) =~= (seq![a] + a1) + a2);
    }
}

/// A run on one event is one step.
pub proof fn lemma_run_one(d: DriverView, e: EventView)
    ensures
        run(d, seq![e]) == (next(d, e).0, seq![next(d, e).1]),
{
    let (d1, a) = next(d, e);
    assert(seq![e][0] == e);
    assert(seq![e].drop_first() =~= Seq::<EventView>::empty());
    assert(run(d1, seq![e].drop_first()) == (d1, Seq::<ActionView>::empty()));
    assert(seq![a] + Seq::<ActionView>::empty() =~= seq![a]);
}

/// What is written over `xs` followed by `ys` is what is written over `xs`,
/// then what is written over `ys`.
pub proof fn lemma_written_concat(xs: Seq<ActionView>, ys: Seq<ActionView>)
    ensures
        written(xs + ys) == written(xs) + written(ys),
    decreases xs.len(),
{
    if xs.len() == 0 {
        assert(xs + ys =~= ys);
        assert(Seq::<Seq<char>>::empty() + written(ys) =~= written(ys));
    } else {
        assert((xs + ys)[0] == xs[0]);
        assert((xs + ys).drop_first() =~= xs.drop_first() + ys);
        lemma_written_concat(xs.drop_first(), ys);
        let rest = written(xs.drop_first());
        match xs[0] {
            ActionView::Write(text) => {
                assert(seq![text] + (rest + written(ys)) =~= (seq![text] + rest) + written(ys));
            },
            _ => {},
        }
    }
}

/// What one action writes.
pub proof fn lemma_written_one(a: ActionView)
    ensures
        written(seq![a]) == match a {
            ActionView::Write(text) => seq![text],
            _ => Seq::<Seq<char>>::empty(),
        },
{
    assert(seq![a].drop_first() =~= Seq::<ActionView>::empty());
    assert(written(seq![a].drop_first()) =~= Seq::<Seq<char>>::empty());
    match a {
        ActionView::Write(text) => {
            assert(seq![text] + Seq::<Seq<char>>::empty() =~= seq![text]);
        },
        _ => {},
    }
}

/// A driver that reads an evaluation dump, with as many lines to come as
/// `lines` has, writes nothing while they come in and ends by publishing
/// what the lines hold together with those read before.
pub proof fn lemma_drain(d: DriverView, lines: Seq<Seq<char>>)
    requires
        d.phase == (Phase::Draining { left: lines.len() as usize }),
        1 <= lines.len() <= usize::MAX,
    ensures
        ({
            let (d1, acts) = run(d, lines_read(lines));
            let block = d.block + concat(lines);
            &&& d1 == DriverView { phase: Phase::Publishing, block, ..d }
            &&& acts.len() == lines.len()
            &&& acts.last() == ActionView::Publish(published(block))
            &&& written(acts) == Seq::<Seq<char>>::empty()
        }),
    decreases lines.len(),
{
    let events = lines_read(lines);
    let (d1, a) = next(d, events[0]);
    let rest = lines.drop_first();
    assert(events.drop_first() =~= lines_read(rest));
    assert(concat(rest) == concat(lines.drop_first()));
    if lines.len() == 1 {
        assert(rest.len() == 0);
        assert(concat(rest) =~= Seq::<char>::empty());
        assert(d.block + lines[0] =~= d.block + concat(lines));
        assert(seq![a] + Seq::<ActionView>::empty() =~= seq![a]);
        lemma_written_one(a);
    } else {
        lemma_drain(d1, rest);
        let (d2, acts) = run(d1, lines_read(rest));
        assert((d.block + lines[0]) + concat(rest) =~= d.block + concat(lines));
        lemma_written_concat(seq![a], acts);
        lemma_written_one(a);
        assert(Seq::<Seq<char>>::empty() + written(acts) =~= written(acts));
        assert((seq![a] + acts).last() == acts.last());
    }
}

/// One exchange that goes well: a ready driver writes the command's
/// instruction and nothing else, ends ready again with its options
/// untouched, and, for an evaluation, publishes what the reply holds.
pub proof fn law_exchange(d: DriverView, c: CommandView, reply: Seq<Seq<char>>)
    requires
        d.phase == Phase::Idle,
        reply.len() == reply_lines(c),
    ensures
        ({
            let (d1, acts) = run(d, exchange(c, reply));
            &&& d1.phase == Phase::Idle
            &&& d1.options == d.options
            &&& written(acts) == seq![c.instruction()]
            &&& acts.len() == exchange(c, reply).len()
            &&& acts.last() == ActionView::Poll
            &&& c is RequestEvaluation ==> acts[acts.len() - 2] == ActionView::Publish(
                published(concat(reply)),
            )
        }),
{
    let head = seq![EventView::Command(c), EventView::Written];
    let tail = if c is RequestEvaluation {
        seq![EventView::Published]
    } else {
        Seq::<EventView>::empty()
    };
    let (d1, a1) = next(d, EventView::Command(c));
    let (d2, a2) = next(d1, EventView::Written);
    // The two steps that every exchange starts with.
    assert(head =~= seq![EventView::Command(c)] + seq![EventView::Written]);
    lemma_run_one(d, EventView::Command(c));
    lemma_run_one(d1, EventView::Written);
    lemma_run_concat(d, seq![EventView::Command(c)], seq![EventView::Written]);
    assert(run(d, head) == (d2, seq![a1] + seq![a2]));
    lemma_written_concat(seq![a1], seq![a2]);
    lemma_written_one(a1);
    lemma_written_one(a2);
    assert(written(seq![a1] + seq![a2]) =~= seq![c.instruction()]);
    // The reply, then the publication.
    lemma_run_concat(d, head + lines_read(reply), tail);
    lemma_run_concat(d, head, lines_read(reply));
    let (d3, a3) = run(d2, lines_read(reply));
    lemma_written_concat(seq![a1] + seq![a2], a3);
    match c {
        CommandView::StopAnalysis => {
            assert(lines_read(reply) =~= seq![EventView::Line(reply[0])]);
            lemma_run_one(d2, EventView::Line(reply[0]));
            lemma_written_one(a3[0]);
            assert(a3 =~= seq![a3[0]]);
            assert(Seq::<ActionView>::empty() =~= run(d3, tail).1);
            assert((seq![a1] + seq![a2] + a3) + Seq::<ActionView>::empty() =~= seq![a1] + seq![a2]
                + a3);
            assert(seq![c.instruction()] + Seq::<Seq<char>>::empty() =~= seq![c.instruction()]);
        },
        CommandView::RequestEvaluation => {
            lemma_drain(d2, reply);
            assert(Seq::<char>::empty() + concat(reply) =~= concat(reply));
            lemma_run_one(d3, EventView::Published);
            let (d4, a4) = next(d3, EventView::Published);
            lemma_written_concat(seq![a1] + seq![a2] + a3, seq![a4]);
            lemma_written_one(a4);
            assert(seq![c.instruction()] + Seq::<Seq<char>>::empty() =~= seq![c.instruction()]);
        },
        _ => {
            assert(lines_read(reply) =~= Seq::<EventView>::empty());
            assert(a3 =~= Seq::<ActionView>::empty());
            assert(Seq::<ActionView>::empty() =~= run(d3, tail).1);
            assert((seq![a1] + seq![a2] + a3) + Seq::<ActionView>::empty() =~= seq![a1] + seq![a2]);
        },
    }
}

/// A position that the handle has set and the queue has accepted reaches
/// the engine as it was given: a ready driver that takes `SetPosition(fen)`
/// writes `position fen`, the record and a line feed, reads nothing, and
/// polls again.
pub proof fn law_set_position_is_written(d: DriverView, fen: Seq<char>)
    requires
        d.phase == Phase::Idle,
    ensures
        run(d, exchange(CommandView::SetPosition(fen), Seq::empty())) == (
            d,
            seq![ActionView::Write("position fen "@ + fen + "\n"@), ActionView::Poll],
        ),
{
    let c = CommandView::SetPosition(fen);
    let first = EventView::Command(c);
    let (d1, a1) = next(d, first);
    let (d2, a2) = next(d1, EventView::Written);
    assert(exchange(c, Seq::empty()) =~= seq![first] + seq![EventView::Written]);
    lemma_run_one(d, first);
    lemma_run_one(d1, EventView::Written);
    lemma_run_concat(d, seq![first], seq![EventView::Written]);
    assert(seq![a1] + seq![a2] =~= seq![a1, a2]);
    assert(d2 == d);
}

/// Commands are served strictly in the order in which they were taken from
/// the queue: over a session that goes well, the driver writes exactly the
/// instructions of the commands, one for each and in their order, and is
/// ready again at the end. Nothing is reordered, merged or dropped.
pub proof fn law_commands_in_order(
    d: DriverView,
    cs: Seq<CommandView>,
    replies: Seq<Seq<Seq<char>>>,
)
    requires
        d.phase == Phase::Idle,
        replies.len() == cs.len(),
        forall|i: int| 0 <= i < cs.len() ==> (#[trigger] replies[i]).len() == reply_lines(cs[i]),
    ensures
        ({
            let (d1, acts) = run(d, session(cs, replies));
            &&& d1.phase == Phase::Idle
            &&& d1.options == d.options
            &&& written(acts) == instructions(cs)
        }),
    decreases cs.len(),
{
    if cs.len() == 0 {
        assert(instructions(cs) =~= Seq::<Seq<char>>::empty());
    } else {
        let first = exchange(cs[0], replies[0]);
        let rest = session(cs.drop_first(), replies.drop_first());
        law_exchange(d, cs[0], replies[0]);
        let (d1, a1) = run(d, first);
        assert forall|i: int| 0 <= i < cs.drop_first().len() implies (
        #[trigger] replies.drop_first()[i]).len() == reply_lines(cs.drop_first()[i]) by {
            assert(replies.drop_first()[i] == replies[i + 1]);
        }
        law_commands_in_order(d1, cs.drop_first(), replies.drop_first());
        lemma_run_concat(d, first, rest);
        let (d2, a2) = run(d1, rest);
        lemma_written_concat(a1, a2);
        assert(seq![cs[0].instruction()] + instructions(cs.drop_first()) =~= instructions(cs));
    }
}

/// Tells whether every line of `declared` declares an option.
pub open spec fn all_declare(declared: Seq<Seq<char>>) -> bool {
    forall|i: int|
        0 <= i < declared.len() ==> (#[trigger] declared[i]) != "uciok\n"@ && option_of_line(
            declared[i],
        ) is Ok
}

/// The options that the lines `declared` declare, in order.
pub open spec fn declared_options(declared: Seq<Seq<char>>) -> Seq<OptionView> {
    Seq::new(declared.len(), |i: int| option_of_line(declared[i])->Ok_0)
}

/// The events of a handshake that goes well: the engine starts, prints its
/// banner, takes `uci`, prints the lines `intro` and `declared`, closes with
/// `uciok`, the options are handed over and `ucinewgame` is taken.
pub open spec fn handshake(banner: Seq<char>, intro: Seq<Seq<char>>, declared: Seq<Seq<char>>) -> Seq<
    EventView,
> {
    seq![EventView::Spawned, EventView::Line(banner), EventView::Written] + lines_read(intro)
        + lines_read(declared) + seq![
        EventView::Line("uciok\n"@),
        EventView::Announced,
        EventView::Written,
    ]
}

/// A driver that reads introductory lines, with as many to come as `intro`
/// has, reads them all, keeps none of them and goes on to the options.
pub proof fn lemma_intro(d: DriverView, intro: Seq<Seq<char>>)
    requires
        d.phase == (Phase::Intro { left: intro.len() as usize }),
        1 <= intro.len() <= usize::MAX,
    ensures
        ({
            let (d1, acts) = run(d, lines_read(intro));
            &&& d1 == d.at(Phase::Options)
            &&& written(acts) == Seq::<Seq<char>>::empty()
        }),
    decreases intro.len(),
{
    let events = lines_read(intro);
    let (d1, a) = next(d, events[0]);
    let rest = intro.drop_first();
    assert(events.drop_first() =~= lines_read(rest));
    lemma_written_one(a);
    if intro.len() == 1 {
        assert(lines_read(rest) =~= Seq::<EventView>::empty());
        assert(seq![a] + Seq::<ActionView>::empty() =~= seq![a]);
    } else {
        lemma_intro(d1, rest);
        let (d2, acts) = run(d1, lines_read(rest));
        lemma_written_concat(seq![a], acts);
        assert(Seq::<Seq<char>>::empty() + written(acts) =~= written(acts));
    }
}

/// A driver that reads options adds each option that a line declares to
/// those it has, in the order of the lines, and writes nothing.
pub proof fn lemma_options(d: DriverView, declared: Seq<Seq<char>>)
    requires
        d.phase == Phase::Options,
        all_declare(declared),
    ensures
        ({
            let (d1, acts) = run(d, lines_read(declared));
            &&& d1 == DriverView { options: d.options + declared_options(declared), ..d }
            &&& written(acts) == Seq::<Seq<char>>::empty()
        }),
    decreases declared.len(),
{
    let events = lines_read(declared);
    if declared.len() == 0 {
        assert(d.options + declared_options(declared) =~= d.options);
    } else {
        let (d1, a) = next(d, events[0]);
        let rest = declared.drop_first();
        assert(declared[0] != "uciok\n"@ && option_of_line(declared[0]) is Ok);
        assert(events.drop_first() =~= lines_read(rest));
        assert forall|i: int| 0 <= i < rest.len() implies (#[trigger] rest[i]) != "uciok\n"@
            && option_of_line(rest[i]) is Ok by {
            assert(rest[i] == declared[i + 1]);
        }
        lemma_options(d1, rest);
        let (d2, acts) = run(d1, lines_read(rest));
        lemma_written_one(a);
        lemma_written_concat(seq![a], acts);
        assert(Seq::<Seq<char>>::empty() + written(acts) =~= written(acts));
        assert(d.options.push(option_of_line(declared[0])->Ok_0) + declared_options(rest)
            =~= d.options + declared_options(declared));
    }
}

/// A handshake that goes well leaves the driver ready, with exactly the
/// options that the engine declared, in the order in which it declared them
/// and with the values that their lines give. On the way the driver writes
/// `uci` and `ucinewgame` and nothing else.
pub proof fn law_handshake(banner: Seq<char>, intro: Seq<Seq<char>>, declared: Seq<Seq<char>>)
    requires
        intro.len() == INTRO_LINES,
        all_declare(declared),
    ensures
        ({
            let (d, acts) = run(initial(), handshake(banner, intro, declared));
            &&& d == DriverView { phase: Phase::Idle, options: declared_options(declared), ..initial() }
            &&& written(acts) == seq!["uci\n"@, "ucinewgame\n"@]
            &&& acts.last() == ActionView::Poll
        }),
{
    let d0 = initial();
    let head = seq![EventView::Spawned, EventView::Line(banner), EventView::Written];
    let tail = seq![EventView::Line("uciok\n"@), EventView::Announced, EventView::Written];
    // The three steps up to the introductory lines.
    let (d1, a1) = next(d0, EventView::Spawned);
    let (d2, a2) = next(d1, EventView::Line(banner));
    let (d3, a3) = next(d2, EventView::Written);
    lemma_run_one(d0, EventView::Spawned);
    lemma_run_one(d1, EventView::Line(banner));
    lemma_run_one(d2, EventView::Written);
    assert(head =~= seq![EventView::Spawned] + seq![EventView::Line(banner)] + seq![
        EventView::Written,
    ]);
    lemma_run_concat(d0, seq![EventView::Spawned], seq![EventView::Line(banner)]);
    lemma_run_concat(
        d0,
        seq![EventView::Spawned] + seq![EventView::Line(banner)],
        seq![EventView::Written],
    );
    let h = seq![a1] + seq![a2] + seq![a3];
    assert(run(d0, head) == (d3, h));
    lemma_written_one(a1);
    lemma_written_one(a2);
    lemma_written_one(a3);
    lemma_written_concat(seq![a1], seq![a2]);
    lemma_written_concat(seq![a1] + seq![a2], seq![a3]);
    assert(written(h) =~= seq!["uci\n"@]);
    // The introductory lines and the options.
    lemma_intro(d3, intro);
    let (d4, i) = run(d3, lines_read(intro));
    lemma_options(d4, declared);
    let (d5, o) = run(d4, lines_read(declared));
    assert(Seq::<OptionView>::empty() + declared_options(declared) =~= declared_options(declared));
    // The three steps that close the handshake.
    let (d6, a6) = next(d5, EventView::Line("uciok\n"@));
    let (d7, a7) = next(d6, EventView::Announced);
    let (d8, a8) = next(d7, EventView::Written);
    lemma_run_one(d5, EventView::Line("uciok\n"@));
    lemma_run_one(d6, EventView::Announced);
    lemma_run_one(d7, EventView::Written);
    assert(tail =~= seq![EventView::Line("uciok\n"@)] + seq![EventView::Announced] + seq![
        EventView::Written,
    ]);
    lemma_run_concat(d5, seq![EventView::Line("uciok\n"@)], seq![EventView::Announced]);
    lemma_run_concat(
        d5,
        seq![EventView::Line("uciok\n"@)] + seq![EventView::Announced],
        seq![EventView::Written],
    );
    let t = seq![a6] + seq![a7] + seq![a8];
    assert(run(d5, tail) == (d8, t));
    lemma_written_one(a6);
    lemma_written_one(a7);
    lemma_written_one(a8);
    lemma_written_concat(seq![a6], seq![a7]);
    lemma_written_concat(seq![a6] + seq![a7], seq![a8]);
    assert(written(t) =~= seq!["ucinewgame\n"@]);
    // All of it together.
    lemma_run_concat(d0, head, lines_read(intro));
    lemma_run_concat(d0, head + lines_read(intro), lines_read(declared));
    lemma_run_concat(d0, head + lines_read(intro) + lines_read(declared), tail);
    lemma_written_concat(h, i);
    lemma_written_concat(h + i, o);
    lemma_written_concat(h + i + o, t);
    assert(written(h + i + o + t) =~= seq!["uci\n"@, "ucinewgame\n"@]);
    assert((h + i + o + t).last() == t.last());
}

/// What is published for a dump whose lines, but for their line feeds, are
/// `texts`: the number of lines and the third fields of the three lines
/// before the last, the latest first, where those are numerals.
pub open spec fn published_of_lines(texts: Seq<Seq<char>>) -> Result<EvalView, EvalFailure> {
    let n = texts.len() as int;
    if n < 4 {
        Err(EvalFailure::Malformed(EvalError::TooFewLines))
    } else {
        match (score_field(texts[n - 2]), score_field(texts[n - 3]), score_field(texts[n - 4])) {
            (Some(a), Some(b), Some(c)) => if is_numeral(a) && is_numeral(b) && is_numeral(c) {
                Ok(EvalView { length: n as nat, evals: seq![a, b, c] })
            } else {
                Err(EvalFailure::Malformed(EvalError::NotNumeric))
            },
            _ => Err(EvalFailure::Malformed(EvalError::FieldMissing)),
        }
    }
}

/// An evaluation request, served by an engine that answers with the lines
/// `texts`, a line feed behind each: the driver publishes an evaluation whose
/// length is the number of lines that it read, and whose scores are taken
/// from the three lines before the last of this answer. Nothing that was
/// read for an earlier request reaches it.
pub proof fn law_evaluation_of_reply(d: DriverView, texts: Seq<Seq<char>>)
    requires
        d.phase == Phase::Idle,
        texts.len() == EVAL_LINES,
        no_line_feeds(texts),
    ensures
        ({
            let events = exchange(CommandView::RequestEvaluation, fed(texts));
            let (d1, acts) = run(d, events);
            &&& acts[acts.len() - 2] == ActionView::Publish(published_of_lines(texts))
            &&& written(acts) == seq!["eval\n"@]
            &&& d1.phase == Phase::Idle
        }),
{
    law_exchange(d, CommandView::RequestEvaluation, fed(texts));
    law_lines_of_fed_texts(texts);
}

} // verus!
