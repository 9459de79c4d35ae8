//! What the protocol decisions of an exchange come to.

use crate::ascii;
use crate::error::{Error, ErrorKind};
use crate::message::Version;
use crate::outside::fields;
use crate::proto::h1::exchange::{
    Direction, Exchange, ExchangeView, HeadAction, Outcome, Progress, ResponsePhase,
};
use crate::proto::h1::head::ResponseHead;
use crate::proto::h1::meaning_laws::{self, held, lists};
use crate::proto::h1::syntax;
use crate::proto::h1::text_laws::{self, same_letters};
use crate::proto::h1::validate::{self, ValidatedRequestHead, ValidatedResponseHead};
use crate::proto::h1::{BodyMode, Expectation, Persistence, UpgradeKind};
use http::HeaderMap;
use vstd::prelude::*;

verus! {

/// A final response decides what becomes of the connection: it closes where the
/// response closes it, where its body ends with the connection, and before HTTP/1.1
/// where the response does not keep it, whatever frames its body. Otherwise it lasts
/// as the request has it.
pub proof fn final_response_decides_reuse(
    exchange: &mut Exchange,
    head: ResponseHead,
    result: Result<(ValidatedResponseHead, HeadAction), Error>,
)
    requires
        call_ensures(Exchange::receive_head, (exchange, head), result),
        old(exchange)@.wf(),
    ensures
        result matches Ok((response, HeadAction::Final)) ==> {
            let options = held(head.headers, "connection");
            let closes = lists(options, "close") || response.body == BodyMode::UntilEof || (
            head.version == Version::Http10 && !lists(options, "keep-alive"));
            &&& final(exchange)@.phase == ResponsePhase::Final
            &&& closes ==> final(exchange)@.persistence == Persistence::Close
            &&& !closes ==> final(exchange)@.persistence == old(exchange)@.persistence
            &&& closes ==> final(exchange)@.result() != Outcome::Reusable
            &&& !final(exchange)@.waiting_continue
        },
        result is Err ==> final(exchange)@.failed && final(exchange)@.result()
            != Outcome::Reusable && !(final(exchange)@.result() is Handoff),
{
    meaning_laws::connection_is_listed(held(head.headers, "connection"));
}

/// A response head leads on exactly once: an informational one, within the budget,
/// leaves the exchange waiting for another; a final one or an upgrade does not. Only
/// the permission status, a final response or an upgrade end a wait for permission.
pub proof fn heads_come_in_order(
    exchange: &mut Exchange,
    head: ResponseHead,
    result: Result<(ValidatedResponseHead, HeadAction), Error>,
)
    requires
        call_ensures(Exchange::receive_head, (exchange, head), result),
        old(exchange)@.wf(),
    ensures
        old(exchange)@.failed || old(exchange)@.phase != ResponsePhase::AwaitingHead ==> (result
            matches Err(error) && error.kind == ErrorKind::InvalidMessage),
        result matches Ok((response, action)) ==> {
            &&& response.head@ == head@
            &&& final(exchange)@.request == old(exchange)@.request
            &&& final(exchange)@.response == old(exchange)@.response
            &&& final(exchange)@.failed == old(exchange)@.failed
            &&& action == HeadAction::Informational <==> 100 <= head@.status <= 199 && head@.status
                != 101
            &&& action == HeadAction::Informational ==> {
                &&& final(exchange)@.phase == ResponsePhase::AwaitingHead
                &&& final(exchange)@.informational == old(exchange)@.informational + 1
                &&& old(exchange)@.informational < old(exchange)@.max_informational
                &&& final(exchange)@.waiting_continue <==> old(exchange)@.waiting_continue
                    && head@.status != 100
            }
            &&& action != HeadAction::Informational ==> {
                &&& final(exchange)@.phase != ResponsePhase::AwaitingHead
                &&& !final(exchange)@.waiting_continue
                &&& final(exchange)@.informational == old(exchange)@.informational
            }
            &&& action matches HeadAction::Upgrade(kind) ==> old(exchange)@.upgrade == Some(kind)
                && final(exchange)@.phase == ResponsePhase::Upgrade(kind) && response.upgrade
                == Some(kind)
            &&& action == HeadAction::Final ==> response.upgrade is None
        },
        !old(exchange)@.failed && old(exchange)@.phase == ResponsePhase::AwaitingHead && 100
            <= head@.status <= 199 && head@.status != 101 && old(exchange)@.informational
            == old(exchange)@.max_informational ==> (result matches Err(error) && (error.kind
            == ErrorKind::Limit || !meaning_laws::lists_tokens(held(head.headers, "connection")))),
{
    meaning_laws::connection_is_listed(held(head.headers, "connection"));
}

/// A response that is sent is taken in as one that is received.
pub proof fn sent_heads_count_as_received(
    here: &mut Exchange,
    there: &mut Exchange,
    sent: &ValidatedResponseHead,
    head: ResponseHead,
    action: Result<HeadAction, Error>,
    result: Result<(ValidatedResponseHead, HeadAction), Error>,
)
    requires
        call_ensures(Exchange::sent_response, (here, sent), action),
        call_ensures(Exchange::receive_head, (there, head), result),
        old(here)@ == old(there)@,
        result matches Ok((response, _)) && response@ == sent@,
    ensures
        action matches Ok(same) && result matches Ok((_, other)) && same == other,
        final(here)@ == final(there)@,
{
}

/// An exchange starts with nothing done and nothing failed, its body held back
/// exactly where its request waits for permission.
pub proof fn exchange_starts_afresh(
    request: &ValidatedRequestHead,
    max_informational: usize,
    exchange: Exchange,
    allowed: bool,
)
    requires
        call_ensures(Exchange::new, (request, max_informational), exchange),
        call_ensures(Exchange::request_body_allowed, (&exchange,), allowed),
    ensures
        allowed <==> request.expectation != Expectation::Continue,
        exchange@.result() == Outcome::Active,
        exchange@.request == Progress::Active && exchange@.response == Progress::Active,
        exchange@.phase == ResponsePhase::AwaitingHead,
        !exchange@.failed,
        exchange@.persistence == request.persistence,
        exchange@.upgrade == request.upgrade,
        exchange@.method == request.head.method@,
        exchange@.max_informational == max_informational,
        exchange@.informational == 0,
        request.upgrade == Some(UpgradeKind::Protocol) ==> exchange@.offered_protocols == held(
            request.head.headers,
            "upgrade",
        ),
{
}

/// A direction settles once: it completes or it fails the exchange, and it settles
/// no other. A response completes only behind its head.
pub proof fn directions_settle_once(
    exchange: &mut Exchange,
    direction: Direction,
    clean: bool,
    result: Result<(), Error>,
)
    requires
        call_ensures(Exchange::settle, (exchange, direction, clean), result),
        old(exchange)@.wf(),
    ensures
        ({
            let before = match direction {
                Direction::Request => old(exchange)@.request,
                Direction::Response => old(exchange)@.response,
            };
            let after = match direction {
                Direction::Request => final(exchange)@.request,
                Direction::Response => final(exchange)@.response,
            };
            let settled = before == Progress::Complete || before == Progress::Aborted;
            let headless = clean && direction == Direction::Response && old(exchange)@.phase
                == ResponsePhase::AwaitingHead;
            &&& result is Ok <==> !settled && !headless
            &&& result is Err ==> after != Progress::Active && (settled ==> after == before)
            &&& result is Err ==> final(exchange)@.failed
            &&& result is Ok && clean ==> after == Progress::Complete && final(exchange)@.failed
                == old(exchange)@.failed
            &&& result is Ok && !clean ==> after == Progress::Aborted && final(exchange)@.failed
            &&& direction == Direction::Request && clean && result is Ok ==> final(
                exchange
            )@.response == old(exchange)@.response
            &&& direction == Direction::Response && clean && result is Ok ==> final(
                exchange
            )@.request == old(exchange)@.request
            &&& final(exchange)@.phase == old(exchange)@.phase
            &&& final(exchange)@.persistence == old(exchange)@.persistence
        }),
{
}

/// What an exchange comes to: it is active until both directions have settled; then
/// a failed one closes, an upgrade is handed over, and the rest lasts or closes as
/// was agreed.
pub proof fn outcome_is_as_agreed(exchange: &Exchange, outcome: Outcome)
    requires
        call_ensures(Exchange::outcome, (exchange,), outcome),
        exchange@.wf(),
    ensures
        outcome == Outcome::Active <==> !(exchange@.request == Progress::Complete
            || exchange@.request == Progress::Aborted) || !(exchange@.response
            == Progress::Complete || exchange@.response == Progress::Aborted),
        outcome != Outcome::Active && exchange@.failed ==> outcome == Outcome::Close,
        outcome != Outcome::Active && !exchange@.failed ==> match exchange@.phase {
            ResponsePhase::Upgrade(kind) => outcome == Outcome::Handoff(kind),
            _ => (outcome == Outcome::Reusable <==> exchange@.persistence == Persistence::Reusable)
                && (outcome == Outcome::Close <==> exchange@.persistence == Persistence::Close),
        },
{
}

/// Asking to stop, to close and to let the body go change that and nothing else.
pub proof fn requests_change_what_they_name(
    stopped: &mut Exchange,
    closed: &mut Exchange,
    permitted: &mut Exchange,
)
    requires
        call_ensures(Exchange::abort, (stopped,), ()),
        call_ensures(Exchange::close_after_exchange, (closed,), ()),
        call_ensures(Exchange::allow_request_body, (permitted,), ()),
    ensures
        final(stopped)@.failed,
        final(stopped)@.request == (if old(stopped)@.request == Progress::Active {
            Progress::Stopping
        } else {
            old(stopped)@.request
        }),
        final(stopped)@.response == (if old(stopped)@.response == Progress::Active {
            Progress::Stopping
        } else {
            old(stopped)@.response
        }),
        final(stopped)@.persistence == old(stopped)@.persistence,
        final(stopped)@.phase == old(stopped)@.phase,
        final(closed)@.persistence == Persistence::Close,
        final(closed)@ == (ExchangeView { persistence: Persistence::Close, ..old(closed)@ }),
        !final(permitted)@.waiting_continue,
        final(permitted)@ == (ExchangeView { waiting_continue: false, ..old(permitted)@ }),
{
}

proof fn pieces_come_back(members: Seq<Seq<u8>>)
    requires
        members.len() > 0,
        forall|i: int| 0 <= i < members.len() ==> no_comma(#[trigger] members[i]),
    ensures
        validate::pieces(text_laws::listed(members)) == Seq::new(
            members.len(),
            |i: int| syntax::trimmed(members[i]),
        ),
    decreases members.len(),
{
    let value = text_laws::listed(members);
    let first = members[0];
    let wanted = Seq::new(members.len(), |i: int| syntax::trimmed(members[i]));
    assert(no_comma(first));
    if members.len() == 1 {
        ascii::position_is_unique(value, ascii::COMMA, value.len());
        assert(validate::pieces(value) =~= wanted);
    } else {
        let others = members.skip(1);
        let rest = text_laws::listed(others);
        assert(value == first + seq![',' as u8] + rest);
        assert forall|i: int| 0 <= i < first.len() implies value[i] != ascii::COMMA by {
            assert(value[i] == first[i]);
        }
        assert(value[first.len() as int] == ascii::COMMA);
        ascii::position_is_unique(value, ascii::COMMA, first.len());
        assert(value.take(first.len() as int) =~= first);
        assert(value.skip(first.len() as int + 1) =~= rest);
        assert forall|i: int| 0 <= i < others.len() implies no_comma(#[trigger] others[i]) by {
            assert(others[i] == members[i + 1]);
        }
        pieces_come_back(others);
        assert(validate::pieces(value) =~= wanted);
    }
}

pub open spec fn no_comma(text: Seq<u8>) -> bool {
    forall|i: int| 0 <= i < text.len() ==> #[trigger] text[i] != ',' as u8
}

/// A response may select the protocols that were offered, in any case of their
/// letters, and no others: a list of selected names matches a list of offered ones
/// exactly where every selected name is one of the offered, and there is one.
pub proof fn selected_protocols_were_offered(
    offered: &Vec<&[u8]>,
    selected: &HeaderMap,
    result: bool,
    offers: Seq<Seq<u8>>,
    choices: Seq<Seq<u8>>,
)
    requires
        call_ensures(validate::upgrade_protocols_match, (offered, selected), result),
        offers.len() > 0,
        choices.len() > 0,
        forall|i: int|
            0 <= i < offers.len() ==> no_comma(#[trigger] offers[i]) && text_laws::tight(offers[i]),
        forall|i: int|
            0 <= i < choices.len() ==> no_comma(#[trigger] choices[i]) && text_laws::tight(
                choices[i],
            ),
        fields::views(offered@) == seq![text_laws::listed(offers)],
        held(*selected, "upgrade") == seq![text_laws::listed(choices)],
    ensures
        result <==> forall|i: int|
            0 <= i < choices.len() ==> (#[trigger] choices[i]).len() > 0 && (exists|j: int|
                0 <= j < offers.len() && same_letters(#[trigger] offers[j], choices[i])),
{
    let wide = text_laws::listed(offers);
    let narrow = text_laws::listed(choices);
    pieces_come_back(offers);
    pieces_come_back(choices);
    assert forall|i: int| 0 <= i < offers.len() implies syntax::trimmed(#[trigger] offers[i])
        == offers[i] by {
        syntax::trimmed_keeps(offers[i]);
    }
    assert forall|i: int| 0 <= i < choices.len() implies syntax::trimmed(#[trigger] choices[i])
        == choices[i] by {
        syntax::trimmed_keeps(choices[i]);
    }
    assert(validate::pieces(wide) =~= offers);
    assert(validate::pieces(narrow) =~= choices);
    reveal_with_fuel(validate::all_pieces, 2);
    assert(seq![wide].skip(1) =~= Seq::empty());
    assert(seq![narrow].skip(1) =~= Seq::empty());
    assert(validate::all_pieces(seq![wide]) =~= offers);
    assert(validate::all_pieces(seq![narrow]) =~= choices);
    assert forall|i: int| 0 <= i < choices.len() implies (validate::is_offered(
        offers,
        #[trigger] choices[i],
    ) <==> exists|j: int| 0 <= j < offers.len() && same_letters(#[trigger] offers[j], choices[i])) by {
        if validate::is_offered(offers, choices[i]) {
            let j = choose|j: int|
                0 <= j < offers.len() && ascii::lowered(#[trigger] offers[j]) == ascii::lowered(
                    choices[i],
                );
            text_laws::lowered_ignores_case(offers[j], choices[i]);
            assert(same_letters(offers[j], choices[i]));
        }
        if exists|j: int| 0 <= j < offers.len() && same_letters(#[trigger] offers[j], choices[i]) {
            let j = choose|j: int|
                0 <= j < offers.len() && same_letters(#[trigger] offers[j], choices[i]);
            text_laws::lowered_ignores_case(offers[j], choices[i]);
        }
    }
}

/// A response turns the connection into another protocol exactly where the request
/// asked for one and every protocol that the response selects was offered; any
/// other upgrade is refused and fails the exchange.
pub proof fn upgrades_were_asked_for(
    exchange: &mut Exchange,
    head: ResponseHead,
    result: Result<(ValidatedResponseHead, HeadAction), Error>,
    offered: &Vec<&[u8]>,
    matching: bool,
)
    requires
        call_ensures(Exchange::receive_head, (exchange, head), result),
        call_ensures(validate::upgrade_protocols_match, (offered, &head.headers), matching),
        fields::views(offered@) == old(exchange)@.offered_protocols,
        old(exchange)@.wf(),
        !old(exchange)@.failed,
        old(exchange)@.phase == ResponsePhase::AwaitingHead,
    ensures
        result matches Ok((_, HeadAction::Upgrade(UpgradeKind::Protocol))) ==> matching
            && head@.status == 101,
        head@.status == 101 && !matching ==> result is Err,
        head@.status == 101 && old(exchange)@.upgrade != Some(UpgradeKind::Protocol) ==> result
            is Err,
        result matches Ok((_, HeadAction::Upgrade(UpgradeKind::Tunnel))) ==> 200 <= head@.status
            <= 299 && old(exchange)@.method == crate::message::method_named("CONNECT"),
        head@.status == 101 && matching && old(exchange)@.upgrade == Some(UpgradeKind::Protocol)
            ==> match result {
            Ok((_, action)) => action == HeadAction::Upgrade(UpgradeKind::Protocol),
            Err(error) => error.kind != ErrorKind::Upgrade,
        },
{
    meaning_laws::connection_is_listed(held(head.headers, "connection"));
}

/// A head that is refused fails the exchange: both directions stop, and what they had
/// settled stays settled.
pub proof fn refused_heads_fail_the_exchange(
    receiving: &mut Exchange,
    head: ResponseHead,
    received: Result<(ValidatedResponseHead, HeadAction), Error>,
    sending: &mut Exchange,
    understood: &ValidatedResponseHead,
    sent: Result<HeadAction, Error>,
)
    requires
        call_ensures(Exchange::receive_head, (receiving, head), received),
        call_ensures(Exchange::sent_response, (sending, understood), sent),
    ensures
        received is Err ==> failed_by(old(receiving)@, final(receiving)@),
        sent is Err ==> failed_by(old(sending)@, final(sending)@),
{
}

/// Whether an exchange has failed, with each direction stopped that was active.
pub open spec fn failed_by(before: ExchangeView, after: ExchangeView) -> bool {
    &&& after.failed
    &&& after.request == (if before.request == Progress::Active {
        Progress::Stopping
    } else {
        before.request
    })
    &&& after.response == (if before.response == Progress::Active {
        Progress::Stopping
    } else {
        before.response
    })
    &&& after.phase == before.phase
    &&& after.persistence == before.persistence
    &&& after.informational == before.informational
    &&& after.upgrade == before.upgrade
}

/// A response may be sent while one is awaited: a final one always, an informational one
/// while there are fewer than allowed, and one that grants a tunnel where one was asked
/// for. A refusal says which of these did not hold.
pub proof fn sent_heads_are_refused_for_a_reason(
    exchange: &mut Exchange,
    head: &ValidatedResponseHead,
    result: Result<HeadAction, Error>,
)
    requires
        call_ensures(Exchange::sent_response, (exchange, head), result),
    ensures
        ({
            let before = old(exchange)@;
            let awaited = !before.failed && before.phase == ResponsePhase::AwaitingHead;
            let status = head.head.status.number();
            let informational = 100 <= status <= 199;
            &&& (!awaited ==> (result matches Err(error) && error.kind
                == ErrorKind::InvalidMessage))
            &&& (awaited && head.upgrade is None && !informational ==> result is Ok)
            &&& (awaited && head.upgrade is None && informational ==> (result is Ok
                <==> before.informational != before.max_informational))
            &&& (awaited && head.upgrade is None ==> (result matches Err(error) ==> error.kind
                == ErrorKind::Limit))
            &&& (awaited && head.upgrade == Some(UpgradeKind::Tunnel) ==> (result is Ok
                <==> before.upgrade == Some(UpgradeKind::Tunnel)))
            &&& (awaited && head.upgrade is Some ==> (result matches Err(error) ==> error.kind
                == ErrorKind::Upgrade))
            &&& (result matches Ok(action) ==> (action == HeadAction::Final <==> head.upgrade
                is None && !informational))
            &&& (result matches Ok(action) ==> (action == HeadAction::Informational <==> head.upgrade
                is None && informational))
        }),
{
}

/// A direction that settles twice, or ends well without a head, is a fault of its
/// driver; the exchange fails by it.
pub proof fn wrong_settlement_is_a_fault(
    exchange: &mut Exchange,
    direction: Direction,
    clean: bool,
    result: Result<(), Error>,
)
    requires
        call_ensures(Exchange::settle, (exchange, direction, clean), result),
    ensures
        result matches Err(error) ==> error.kind == ErrorKind::Internal && failed_by(
            old(exchange)@,
            final(exchange)@,
        ),
        result is Ok && !clean && direction == Direction::Request ==> final(exchange)@.response == (
        if old(exchange)@.response == Progress::Active {
            Progress::Stopping
        } else {
            old(exchange)@.response
        }),
        result is Ok && !clean && direction == Direction::Response ==> final(exchange)@.request == (
        if old(exchange)@.request == Progress::Active {
            Progress::Stopping
        } else {
            old(exchange)@.request
        }),
{
}

/// The upgrade lines of a message count together: a further line offers, or selects, what
/// it lists on top of the others. Where nothing is selected, nothing matches.
pub proof fn upgrade_lines_count_together(
    offered: &Vec<&[u8]>,
    selected: &HeaderMap,
    result: bool,
    names: Seq<Seq<u8>>,
    lines: Seq<Seq<u8>>,
)
    requires
        call_ensures(validate::upgrade_protocols_match, (offered, selected), result),
        names.len() > 0,
        forall|i: int|
            0 <= i < names.len() ==> no_comma(#[trigger] names[i]) && text_laws::tight(names[i]),
    ensures
        held(*selected, "upgrade").len() == 0 ==> !result,
        validate::all_pieces(seq![text_laws::listed(names)] + lines) == names
            + validate::all_pieces(lines),
{
    let whole = seq![text_laws::listed(names)] + lines;
    pieces_come_back(names);
    assert forall|i: int| 0 <= i < names.len() implies syntax::trimmed(#[trigger] names[i])
        == names[i] by {
        syntax::trimmed_keeps(names[i]);
    }
    assert(validate::pieces(text_laws::listed(names)) =~= names);
    assert(whole[0] == text_laws::listed(names));
    assert(whole.skip(1) =~= lines);
}

} // verus!
