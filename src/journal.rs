//! The journal of a match (the commands it accepted, in order) and the
//! decisions of the single writer that owns the match.
use vstd::prelude::*;

use crate::events::Event;
use crate::rules::{disconnect_all, initial_state, run, step};
use crate::state::{GameState, StateView};
use crate::{Error, Game};

verus! {

/// A journal record that the match rejected on replay.
#[derive(Clone, Copy, Debug, PartialEq, Eq)]
pub struct Rejected {
    /// The position of the record in the journal.
    pub index: usize,
    /// Why the match rejected it.
    pub error: Error,
}

/// What the writer does with one submitted command.
#[derive(Debug)]
pub enum Outcome {
    /// The match accepted the command: append `record` to the journal, then
    /// answer the submitter with `snapshot` and publish it.
    Accepted { record: Event, snapshot: GameState },
    /// The match rejected the command: answer the submitter with `error`;
    /// nothing is written or published.
    Rejected { error: Error },
}

/// A command and its copy do the same thing to every match.
pub proof fn lemma_step_copy(s: StateView, a: Event, b: Event)
    requires
        a.view_eq(b),
    ensures
        step(s, a) == step(s, b),
{
}

/// The sequence of matches and the journal that a writer holds after it was
/// handed the commands `es`, one by one, starting from the match `s`: an
/// accepted command moves the match and is appended to the journal, a rejected
/// one changes neither.
pub open spec fn session(s: StateView, es: Seq<Event>) -> (StateView, Seq<Event>)
    decreases es.len(),
{
    if es.len() == 0 {
        (s, seq![])
    } else {
        let (t, journal) = session(s, es.drop_last());
        match step(t, es.last()) {
            Ok(u) => (u, journal.push(es.last())),
            Err(_) => (t, journal),
        }
    }
}

/// Applies one submitted command to the match and says what to do next: on
/// acceptance the record to append and the snapshot to publish, on rejection
/// only the error for the submitter.
pub fn handle_command(game: &mut Game, event: Event) -> (r: Outcome)
    ensures
        (match step(old(game)@, event) {
            Ok(t) => final(game)@ == t && (r matches Outcome::Accepted { record, snapshot } && record.view_eq(event)
                && snapshot@ == t),
            Err(e) => final(game)@ == old(game)@ && r == (Outcome::Rejected { error: e }),
        }),
{
    let record = event.clone();
    match game.apply(event) {
        Ok(snapshot) => Outcome::Accepted { record, snapshot },
        Err(error) => Outcome::Rejected { error },
    }
}

/// Rebuilds a match from its journal: applies every record in order to a new
/// match and stops at the first one that is rejected. Since no client survives
/// a restart, every contestant of the rebuilt match is disconnected.
pub fn replay(journal: &Vec<Event>) -> (r: Result<Game, Rejected>)
    ensures
        (match run(initial_state(), journal@) {
            Ok(t) => r is Ok && r.unwrap()@ == disconnect_all(t),
            Err(e) => r is Err && r->Err_0.error == e && r->Err_0.index < journal@.len()
                && run(initial_state(), journal@.take(r->Err_0.index as int)) is Ok
                && step(run(initial_state(), journal@.take(r->Err_0.index as int))->Ok_0, journal@[r->Err_0.index as int])
                == Err::<StateView, Error>(e),
        }),
{
    let mut game = Game::new();
    let mut i: usize = 0;
    assert(journal@.take(0) =~= Seq::<Event>::empty());
    while i < journal.len()
        invariant
            i <= journal@.len(),
            run(initial_state(), journal@.take(i as int)) == Ok::<StateView, Error>(game@),
        decreases journal@.len() - i,
    {
        let event = journal[i].clone();
        proof {
            lemma_step_copy(game@, event, journal@[i as int]);
            assert(journal@.take(i + 1).drop_last() =~= journal@.take(i as int));
        }
        let ghost before = game@;
        match game.apply(event) {
            Ok(_) => {},
            Err(error) => {
                proof {
                    lemma_run_stops(initial_state(), journal@, i as int);
                }
                return Err(Rejected { index: i, error });
            },
        }
        i += 1;
    }
    assert(journal@.take(i as int) =~= journal@);
    game.mark_all_contestants_as_disconnected();
    Ok(game)
}

/// The journal's bytes for a list of records: each record followed by a
/// newline.
pub open spec fn framed(records: Seq<Seq<u8>>) -> Seq<u8>
    decreases records.len(),
{
    if records.len() == 0 {
        seq![]
    } else {
        framed(records.drop_last()) + records.last() + seq![10u8]
    }
}

/// Whether the bytes hold no newline.
pub open spec fn single_line(b: Seq<u8>) -> bool {
    forall|i: int| 0 <= i < b.len() ==> b[i] != 10u8
}

/// The journal line of one serialized record: the record and a newline.
pub fn frame_record(record: Vec<u8>) -> (r: Vec<u8>)
    ensures
        r@ == framed(seq![record@]),
{
    let ghost x = record@;
    let mut r = record;
    r.push(10u8);
    assert(seq![x].drop_last() =~= Seq::<Seq<u8>>::empty());
    assert(framed(Seq::<Seq<u8>>::empty()) == Seq::<u8>::empty());
    assert(seq![x].last() == x);
    assert(framed(seq![x]) =~= r@);
    r
}

/// `data` consists of the single-line `records`, each followed by a newline,
/// and then of a last line without a newline that ends at `data`'s end.
pub open spec fn splits(data: Seq<u8>, records: Seq<Seq<u8>>, end: int) -> bool {
    &&& 0 <= end <= data.len()
    &&& framed(records) == data.take(end)
    &&& forall|k: int| 0 <= k < records.len() ==> single_line(#[trigger] records[k])
    &&& single_line(data.skip(end))
}

/// Splits the journal's bytes into its records, one per line. A last line
/// without its newline is a write that a crash cut short: it is not a record.
/// Returns the records and the length of the bytes that they cover; the bytes
/// after that are the cut line.
pub fn split_records(data: &[u8]) -> (r: (Vec<Vec<u8>>, usize))
    ensures
        splits(data@, r.0@.map_values(|v: Vec<u8>| v@), r.1 as int),
{
    let mut records: Vec<Vec<u8>> = Vec::new();
    let mut current: Vec<u8> = Vec::new();
    let mut end: usize = 0;
    let mut i: usize = 0;
    assert(data@.take(0) =~= framed(Seq::<Seq<u8>>::empty()));
    while i < data.len()
        invariant
            end <= i <= data@.len(),
            framed(records@.map_values(|v: Vec<u8>| v@)) == data@.take(end as int),
            forall|k: int| 0 <= k < records@.len() ==> single_line(#[trigger] records@[k]@),
            current@ == data@.subrange(end as int, i as int),
            single_line(current@),
        decreases data@.len() - i,
    {
        let b = data[i];
        if b == 10u8 {
            let ghost rs = records@.map_values(|v: Vec<u8>| v@);
            let ghost cur = current@;
            records.push(current);
            current = Vec::new();
            proof {
                let rs2 = records@.map_values(|v: Vec<u8>| v@);
                assert(rs2 =~= rs.push(cur));
                assert(rs2.drop_last() =~= rs);
                assert(data@.take(i + 1) =~= data@.take(end as int) + cur + seq![10u8]);
            }
            end = i + 1;
            assert(current@ =~= data@.subrange(end as int, i + 1));
        } else {
            current.push(b);
            assert(current@ =~= data@.subrange(end as int, i + 1));
        }
        i += 1;
    }
    assert(data@.skip(end as int) =~= current@);
    let ghost rs = records@.map_values(|v: Vec<u8>| v@);
    assert forall|k: int| 0 <= k < rs.len() implies single_line(#[trigger] rs[k]) by {
        assert(single_line(records@[k]@));
    }
    (records, end)
}

/// A framed list of records ends in a newline.
proof fn lemma_framed_ends_in_newline(records: Seq<Seq<u8>>)
    requires
        records.len() > 0,
    ensures
        framed(records).len() > 0,
        framed(records).last() == 10u8,
{
}

/// Bytes split in only one way into single-line records and a last line.
proof fn lemma_split_unique(a: Seq<Seq<u8>>, ta: Seq<u8>, b: Seq<Seq<u8>>, tb: Seq<u8>)
    requires
        framed(a) + ta == framed(b) + tb,
        forall|k: int| 0 <= k < a.len() ==> single_line(#[trigger] a[k]),
        forall|k: int| 0 <= k < b.len() ==> single_line(#[trigger] b[k]),
        single_line(ta),
        single_line(tb),
    ensures
        a == b,
        ta == tb,
    decreases a.len() + b.len(),
{
    let data = framed(a) + ta;
    let la = framed(a).len() as int;
    let lb = framed(b).len() as int;
    assert(data.len() == la + ta.len());
    assert(data.len() == lb + tb.len());
    if b.len() > 0 {
        lemma_framed_ends_in_newline(b);
        assert(data[lb - 1] == 10u8);
        if lb > la {
            assert(data[lb - 1] == ta[lb - 1 - la]);
            assert(false);
        }
    }
    if a.len() > 0 {
        lemma_framed_ends_in_newline(a);
        assert(data[la - 1] == 10u8);
        if la > lb {
            assert(data[la - 1] == (framed(b) + tb)[la - 1]);
            assert(data[la - 1] == tb[la - 1 - lb]);
            assert(false);
        }
    }
    if a.len() == 0 && b.len() == 0 {
        assert(ta =~= data);
        assert(tb =~= data);
    } else if a.len() == 0 {
        assert(la == 0);
        assert(ta[lb - 1] == data[lb - 1]);
    } else if b.len() == 0 {
        assert(lb == 0);
        assert(tb[la - 1] == data[la - 1]);
    } else {
        assert(la == lb);
        assert(framed(a) =~= data.take(la));
        assert(framed(b) =~= data.take(lb));
        assert(ta =~= data.skip(la));
        assert(tb =~= data.skip(lb));
        let fa = framed(a.drop_last()) + a.last();
        let fb = framed(b.drop_last()) + b.last();
        assert(fa =~= framed(a).drop_last());
        assert(fb =~= framed(b).drop_last());
        assert(single_line(a.last()) && single_line(b.last()));
        lemma_split_unique(a.drop_last(), a.last(), b.drop_last(), b.last());
        assert(a =~= a.drop_last().push(a.last()));
        assert(b =~= b.drop_last().push(b.last()));
    }
}

/// Splitting the bytes of framed single-line records gives back exactly those
/// records, and covers all of the bytes.
pub proof fn lemma_split_framed(records: Seq<Seq<u8>>, split: Seq<Seq<u8>>, end: int)
    requires
        forall|k: int| 0 <= k < records.len() ==> single_line(#[trigger] records[k]),
        splits(framed(records), split, end),
    ensures
        split == records,
        end == framed(records).len(),
{
    let data = framed(records);
    assert(data =~= framed(split) + data.skip(end));
    assert(data =~= framed(records) + Seq::<u8>::empty());
    lemma_split_unique(split, data.skip(end), records, Seq::<u8>::empty());
}

/// Once a prefix of the commands ends in a rejection, the whole run ends in it.
pub proof fn lemma_run_stops(s: StateView, es: Seq<Event>, i: int)
    requires
        0 <= i < es.len(),
        run(s, es.take(i)) is Ok,
        step(run(s, es.take(i))->Ok_0, es[i]) is Err,
    ensures
        run(s, es) == step(run(s, es.take(i))->Ok_0, es[i]),
    decreases es.len(),
{
    if i == es.len() - 1 {
        assert(es.drop_last() =~= es.take(i));
    } else {
        assert(es.drop_last().take(i) =~= es.take(i));
        lemma_run_stops(s, es.drop_last(), i);
    }
}

} // verus!
