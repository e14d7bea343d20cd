//! From a phrase such as "Tomorrow" to an instant, and the saving of a post
//! under the instant found.

use crate::schedule::{Schedule, Store};
use crate::text::chars_of;
use vstd::prelude::*;

verus! {

/// The error of `parse_datetime::parse_datetime`. Nothing is read from it.
#[verifier::external_type_specification]
#[verifier::external_body]
pub struct ExParseDateTimeError(parse_datetime::ParseDateTimeError);

/// Why a post was not scheduled.
#[derive(Clone, Copy, Debug, PartialEq, Eq, Structural)]
pub enum ScheduleError {
    /// The body holds no character.
    EmptyBody,
    /// The phrase names no instant.
    InvalidTime,
    /// The store has no id left to give out.
    Persistence,
}

/// The kinds of error a caller may want to tell apart.
#[derive(Clone, Copy, Debug, PartialEq, Eq, Structural)]
pub enum ErrorKind {
    Validation,
    Persistence,
    Delivery,
}

impl ScheduleError {
    /// The kind of this error: a body or a phrase that was refused is a
    /// matter of validation, a store that took nothing one of persistence.
    pub open spec fn kind_of(self) -> ErrorKind {
        match self {
            ScheduleError::EmptyBody => ErrorKind::Validation,
            ScheduleError::InvalidTime => ErrorKind::Validation,
            ScheduleError::Persistence => ErrorKind::Persistence,
        }
    }

    /// The kind of this error.
    pub fn kind(&self) -> (kind: ErrorKind)
        ensures
            kind == self.kind_of(),
    {
        match self {
            ScheduleError::EmptyBody => ErrorKind::Validation,
            ScheduleError::InvalidTime => ErrorKind::Validation,
            ScheduleError::Persistence => ErrorKind::Persistence,
        }
    }
}

/// What `parse_datetime::parse_datetime` finds in a phrase. Nothing is read
/// from it but through `epoch_second`.
#[verifier::external_type_specification]
#[verifier::external_body]
pub struct ExParsedDateTime(parse_datetime::ParsedDateTime);

/// Why a phrase gave no instant.
#[derive(Debug)]
pub enum ResolveError {
    /// The phrase is none that the resolver is asked about.
    Refused,
    /// The resolver found no instant in the phrase.
    Resolver(parse_datetime::ParseDateTimeError),
}

/// Whether `c` is a decimal digit.
pub open spec fn is_digit(c: char) -> bool {
    0x30 <= c as u32 <= 0x39
}

/// Whether `c` is a letter of the basic Latin alphabet: only these spell the
/// words that a phrase may hold.
pub open spec fn is_letter(c: char) -> bool {
    0x41 <= c as u32 <= 0x5a || 0x61 <= c as u32 <= 0x7a
}

/// Whether the nine characters before position `i` are digits.
pub open spec fn nine_digits_before(phrase: Seq<char>, i: int) -> bool {
    &&& 9 <= i <= phrase.len()
    &&& forall|k: int| i - 9 <= k < i ==> is_digit(#[trigger] phrase[k])
}

/// Whether no letter comes after nine digits in a row: no count of nine
/// digits or more stands before a word.
pub open spec fn counts_are_short(phrase: Seq<char>) -> bool {
    forall|i: int, j: int|
        #[trigger] nine_digits_before(phrase, i) && i <= j < phrase.len() ==> !is_letter(
            #[trigger] phrase[j],
        )
}

/// The opening parentheses that a phrase may hold.
pub open spec fn max_openings() -> nat {
    32
}

/// How many opening parentheses a phrase holds.
pub open spec fn openings(phrase: Seq<char>) -> nat {
    phrase.filter(|c: char| c == '(').len()
}

/// The phrases that the resolver is asked about. The resolver adds seven
/// times the count before a weekday to a small number without testing the
/// sum, and it descends once for each opening parenthesis: so a phrase is
/// left out where nine digits or more in a row come before a letter, and
/// where it opens more than 32 parentheses.
pub open spec fn resolvable(phrase: Seq<char>) -> bool {
    &&& openings(phrase) <= max_openings()
    &&& counts_are_short(phrase)
}

/// Tests whether a phrase is one that the resolver is asked about.
pub fn is_resolvable(expression: &str) -> (r: bool)
    ensures
        r == resolvable(expression@),
{
    let v = chars_of(expression);
    let n = v.len();
    let mut idx: usize = 0;
    let mut run: usize = 0;
    let mut long: bool = false;
    let mut opens: usize = 0;
    proof {
        reveal(Seq::filter);
        assert(v@.take(0) =~= Seq::<char>::empty());
    }
    while idx < n
        invariant
            idx <= n == v.len(),
            v@ == expression@,
            run <= 9,
            run <= idx,
            forall|k: int| idx - run <= k < idx ==> is_digit(#[trigger] v@[k]),
            run < 9 ==> (idx == run || !is_digit(v@[idx - run - 1])),
            long <==> exists|i: int| i <= idx && #[trigger] nine_digits_before(v@, i),
            forall|i: int, j: int|
                #[trigger] nine_digits_before(v@, i) && i <= j < idx ==> !is_letter(
                    #[trigger] v@[j],
                ),
            opens == openings(v@.take(idx as int)),
            opens <= 32,
        decreases n - idx,
    {
        let c = v[idx];
        let code: u32 = c as u32;
        let letter = (0x41 <= code && code <= 0x5a) || (0x61 <= code && code <= 0x7a);
        if long && letter {
            proof {
                let i = choose|i: int| i <= idx && #[trigger] nine_digits_before(v@, i);
                assert(is_letter(v@[idx as int]));
            }
            return false;
        }
        proof {
            let upto = v@.take(idx as int + 1);
            assert(upto.drop_last() =~= v@.take(idx as int));
            assert(upto.last() == c);
            reveal(Seq::filter);
        }
        if c == '(' {
            if opens == 32 {
                proof {
                    lemma_openings_of_start(v@, idx as int + 1);
                }
                return false;
            }
            opens += 1;
        }
        let ghost before_run = run;
        if 0x30 <= code && code <= 0x39 {
            if run < 9 {
                run += 1;
            }
        } else {
            run = 0;
        }
        proof {
            if nine_digits_before(v@, idx as int + 1) {
                if run < 9 {
                    assert(is_digit(v@[idx as int]));
                    assert(is_digit(v@[idx - before_run - 1]));
                }
            }
            if run == 9 {
                assert(nine_digits_before(v@, idx as int + 1));
            }
        }
        if run == 9 {
            long = true;
        }
        idx += 1;
    }
    proof {
        assert(v@.take(n as int) =~= v@);
    }
    true
}

/// A start of a phrase opens no more parentheses than the whole phrase.
proof fn lemma_openings_of_start(phrase: Seq<char>, count: int)
    requires
        0 <= count <= phrase.len(),
    ensures
        openings(phrase.take(count)) <= openings(phrase),
{
    let opening = |c: char| c == '(';
    assert(phrase =~= phrase.take(count) + phrase.skip(count));
    Seq::filter_distributes_over_add(phrase.take(count), phrase.skip(count), opening);
}

/// Calls `parse_datetime::parse_datetime` on the phrase. Which instant a
/// phrase names depends on the clock and on the time zone of the machine, so
/// nothing is claimed of what comes back. Phrases on which the call may not
/// come back are left out.
#[verifier::external_body]
fn parse_phrase(expression: &str) -> (parsed: Result<
    parse_datetime::ParsedDateTime,
    parse_datetime::ParseDateTimeError,
>)
    requires
        resolvable(expression@),
{
    parse_datetime::parse_datetime(expression)
}

/// Calls `ParsedDateTime::unix_epoch_second`, which gives the instant found in
/// whole seconds since the Unix epoch, rounded down.
#[verifier::external_body]
fn epoch_second(parsed: &parse_datetime::ParsedDateTime) -> (second: i64) {
    parsed.unix_epoch_second()
}

/// The instant that a phrase such as "Tomorrow" names, in whole seconds since
/// the Unix epoch. A phrase that the resolver is not asked about is refused
/// without a call; of any other phrase the resolver decides.
pub fn resolve(expression: &str) -> (resolved: Result<i64, ResolveError>)
    ensures
        resolved matches Err(ResolveError::Refused) <==> !resolvable(expression@),
{
    if !is_resolvable(expression) {
        return Err(ResolveError::Refused);
    }
    match parse_phrase(expression) {
        Ok(parsed) => Ok(epoch_second(&parsed)),
        Err(error) => Err(ResolveError::Resolver(error)),
    }
}

/// What scheduling a post gives, for a body and for what the phrase resolved
/// to. The body is looked at first, then the instant, then the store.
pub open spec fn scheduled(
    store: Store,
    body: Seq<char>,
    resolved: Result<i64, ResolveError>,
) -> Result<nat, ScheduleError> {
    if body.len() == 0 {
        Err(ScheduleError::EmptyBody)
    } else if resolved is Err {
        Err(ScheduleError::InvalidTime)
    } else if store.next_id > u32::MAX {
        Err(ScheduleError::Persistence)
    } else {
        Ok(store.next_id)
    }
}

impl Schedule {
    /// Schedules a post for the instant that a phrase resolved to, and
    /// returns its id. An empty body, a phrase that named no instant, or a
    /// store without an id left is refused, and the store stays as it was.
    pub fn new_post_at(
        &mut self,
        body: &str,
        resolved: Result<i64, ResolveError>,
        now: i64,
    ) -> (r: Result<u32, ScheduleError>)
        ensures
            match r {
                Ok(id) => scheduled(old(self)@, body@, resolved) == Ok::<nat, ScheduleError>(
                    id as nat,
                ),
                Err(error) => scheduled(old(self)@, body@, resolved) == Err::<nat, ScheduleError>(
                    error,
                ),
            },
            r is Err ==> final(self)@ == old(self)@,
            r is Ok ==> (resolved matches Ok(at) && final(self)@ == old(self)@.saved(
                body@,
                at as int,
                now as int,
            )),
            final(self)@.wf(),
    {
        let id = self.next_id();
        if body.is_empty() {
            return Err(ScheduleError::EmptyBody);
        }
        match resolved {
            Err(_) => Err(ScheduleError::InvalidTime),
            Ok(at) => {
                if self.save(body, at, now) {
                    Ok(id as u32)
                } else {
                    Err(ScheduleError::Persistence)
                }
            },
        }
    }

    /// Schedules a post for the instant that `time` names, and returns its
    /// id. An empty body is refused first, then a phrase that the resolver is
    /// not asked about. Which instant any other phrase names is for the
    /// resolver to say: whatever it said, a refusal leaves the store as it
    /// was, a store without an id left takes nothing, and a post that was
    /// taken is the last one of the store, pending and never attempted, with
    /// this body.
    pub fn new_post(&mut self, body: &str, time: &str, now: i64) -> (r: Result<u32, ScheduleError>)
        ensures
            r == Err::<u32, ScheduleError>(ScheduleError::EmptyBody) <==> body@.len() == 0,
            body@.len() > 0 && !resolvable(time@) ==> r == Err::<u32, ScheduleError>(
                ScheduleError::InvalidTime,
            ),
            r == Err::<u32, ScheduleError>(ScheduleError::Persistence) ==> body@.len() > 0
                && old(self)@.next_id > u32::MAX,
            r is Ok ==> body@.len() > 0 && old(self)@.next_id <= u32::MAX && resolvable(time@),
            r is Err ==> final(self)@ == old(self)@,
            r matches Ok(id) ==> (id == old(self)@.next_id && exists|at: i64|
                final(self)@ == #[trigger] old(self)@.saved(body@, at as int, now as int)),
            final(self)@.wf(),
    {
        let resolved = resolve(time);
        self.new_post_at(body, resolved, now)
    }
}

} // verus!
