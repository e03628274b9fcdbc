//! What holds of a mailbox over several requests.

use crate::mailbox_node::{
    all_handed_out, handed_out, is_mailbox_answer, kept_envelope, mailbox_after,
    MailboxRequestView, MailboxResponseView, OfflineView,
};
use crate::mailbox_storage::{
    envelopes_of, fetch_place, is_pending, EnvelopeOrder, EnvelopeRow, EnvelopeStatus,
    MailboxView, StoredEnvelopeRow,
};
use crate::sorted::{is_selection, text_before, OrderedKey};
use vstd::prelude::*;

verus! {

/// Whether an envelope still waits at a time: it was neither acknowledged nor let go, and its
/// time, if it has one, is not over.
pub open spec fn still_waits(row: StoredEnvelopeRow, now: u64) -> bool {
    &&& row.status == EnvelopeStatus::Pending
    &&& row.envelope.expires_at_unix_secs matches Some(expires) ==> expires > now
}

/// Whether the times of an envelope are within the range in which times are stored.
pub open spec fn has_plain_times(row: StoredEnvelopeRow) -> bool {
    &&& row.envelope.created_at_unix_secs <= 0x7fff_ffff_ffff_ffff
    &&& row.envelope.expires_at_unix_secs matches Some(expires) ==> expires
        <= 0x7fff_ffff_ffff_ffff
}

/// Time lets go of nothing but of what has waited too long: every envelope stays, unchanged
/// unless it waited and its time is over, and the mailbox holds as many as before.
pub proof fn law_time_concerns_overdue_envelopes(mailbox: MailboxView, now: u64, id: Seq<char>)
    requires
        now <= 0x7fff_ffff_ffff_ffff,
        mailbox.envelopes.contains_key(id) ==> has_plain_times(mailbox.envelopes[id]),
    ensures
        ({
            let after = mailbox.aged(now);
            &&& after.max_pending_envelopes == mailbox.max_pending_envelopes
            &&& after.envelopes.contains_key(id) <==> mailbox.envelopes.contains_key(id)
            &&& mailbox.envelopes.contains_key(id) ==> after.envelopes[id].envelope
                == mailbox.envelopes[id].envelope
            &&& mailbox.envelopes.contains_key(id) && (mailbox.envelopes[id].status
                != EnvelopeStatus::Pending || still_waits(mailbox.envelopes[id], now))
                ==> after.envelopes[id] == mailbox.envelopes[id]
            &&& mailbox.envelopes.contains_key(id) && mailbox.envelopes[id].status
                == EnvelopeStatus::Pending && !still_waits(mailbox.envelopes[id], now)
                ==> after.envelopes[id].status == EnvelopeStatus::Expired
        }),
{
}

/// A mailbox hands out, for a recipient, every envelope that waits for that recipient and no
/// other, each once.
pub proof fn law_fetch_hands_out_what_waits(
    mailbox: MailboxView,
    token: Seq<char>,
    now: u64,
    rows: Seq<StoredEnvelopeRow>,
)
    requires
        now <= 0x7fff_ffff_ffff_ffff,
        forall|id: Seq<char>|
            #![trigger mailbox.envelopes[id]]
            mailbox.envelopes.contains_key(id) ==> has_plain_times(mailbox.envelopes[id]),
        is_selection::<Seq<char>, StoredEnvelopeRow, EnvelopeOrder>(
            rows,
            mailbox.aged(now).envelopes,
            fetch_place(token, now),
        ),
    ensures
        forall|i: int|
            0 <= i < rows.len() ==> {
                &&& (#[trigger] rows[i]).envelope.recipient_token == token
                &&& still_waits(rows[i], now)
                &&& mailbox.envelopes.contains_value(rows[i])
            },
        forall|id: Seq<char>|
            #![trigger mailbox.envelopes[id]]
            mailbox.envelopes.contains_key(id) && mailbox.envelopes[id].envelope.recipient_token
                == token && still_waits(mailbox.envelopes[id], now) ==> rows.contains(
                mailbox.envelopes[id],
            ),
        forall|i: int, j: int| 0 <= i < j < rows.len() ==> rows[i] != rows[j],
{
    let aged = mailbox.aged(now);
    let place = fetch_place(token, now);
    assert forall|i: int| 0 <= i < rows.len() implies {
        &&& (#[trigger] rows[i]).envelope.recipient_token == token
        &&& still_waits(rows[i], now)
        &&& mailbox.envelopes.contains_value(rows[i])
    } by {
        assert(place(rows[i]) is Some);
        let id = choose|id: Seq<char>| #[trigger]
            aged.envelopes.contains_key(id) && aged.envelopes[id] == rows[i];
        law_time_concerns_overdue_envelopes(mailbox, now, id);
        assert(mailbox.envelopes[id] == rows[i]);
    }
    assert forall|id: Seq<char>|
        #![trigger mailbox.envelopes[id]]
        mailbox.envelopes.contains_key(id) && mailbox.envelopes[id].envelope.recipient_token
            == token && still_waits(mailbox.envelopes[id], now) implies rows.contains(
        mailbox.envelopes[id],
    ) by {
        law_time_concerns_overdue_envelopes(mailbox, now, id);
        assert(place(aged.envelopes[id]) is Some);
    }
    assert forall|i: int, j: int| 0 <= i < j < rows.len() implies rows[i] != rows[j] by {
        let at = place(rows[i])->0;
        EnvelopeOrder::order_laws(at, at, at);
    }
}

/// Envelopes are handed out oldest first, of one time by their id.
pub proof fn law_fetch_hands_out_oldest_first(
    mailbox: MailboxView,
    token: Seq<char>,
    now: u64,
    rows: Seq<StoredEnvelopeRow>,
    i: int,
    j: int,
)
    requires
        is_selection::<Seq<char>, StoredEnvelopeRow, EnvelopeOrder>(
            rows,
            mailbox.aged(now).envelopes,
            fetch_place(token, now),
        ),
        0 <= i < j < rows.len(),
        has_plain_times(rows[i]),
        has_plain_times(rows[j]),
    ensures
        ({
            let first = envelopes_of(rows)[i];
            let second = envelopes_of(rows)[j];
            &&& first == rows[i].envelope
            &&& second == rows[j].envelope
            &&& first.created_at_unix_secs <= second.created_at_unix_secs
            &&& first.created_at_unix_secs == second.created_at_unix_secs ==> text_before(
                first.message_id,
                second.message_id,
            )
        }),
{
    let place = fetch_place(token, now);
    assert(EnvelopeOrder::before(place(rows[i])->0, place(rows[j])->0));
}

/// An acknowledgement concerns its own envelope alone: that one counts as delivered from then
/// on, and every other one stays as it is.
pub proof fn law_acknowledgement_concerns_one_envelope(
    mailbox: MailboxView,
    acknowledged: Seq<char>,
    now: u64,
    id: Seq<char>,
)
    ensures
        ({
            let after = mailbox.with_acknowledged(acknowledged, now);
            &&& after.max_pending_envelopes == mailbox.max_pending_envelopes
            &&& after.envelopes.contains_key(id) <==> mailbox.envelopes.contains_key(id)
            &&& id != acknowledged && mailbox.envelopes.contains_key(id) ==> after.envelopes[id]
                == mailbox.envelopes[id]
            &&& mailbox.envelopes.contains_key(acknowledged)
                ==> after.envelopes[acknowledged].status == EnvelopeStatus::Delivered
                && after.envelopes[acknowledged].delivered_at_unix_secs == Some(now)
                && after.envelopes[acknowledged].envelope
                == mailbox.envelopes[acknowledged].envelope
        }),
{
}

/// An envelope that waits is handed out until it is acknowledged itself: whatever other
/// envelope is acknowledged before.
pub proof fn law_waiting_envelope_outlives_other_acknowledgements(
    mailbox: MailboxView,
    acknowledged: Seq<char>,
    then: u64,
    now: u64,
    id: Seq<char>,
    rows: Seq<StoredEnvelopeRow>,
)
    requires
        now <= 0x7fff_ffff_ffff_ffff,
        mailbox.envelopes.contains_key(id),
        has_plain_times(mailbox.envelopes[id]),
        still_waits(mailbox.envelopes[id], now),
        id != acknowledged,
        is_selection::<Seq<char>, StoredEnvelopeRow, EnvelopeOrder>(
            rows,
            mailbox.with_acknowledged(acknowledged, then).aged(now).envelopes,
            fetch_place(mailbox.envelopes[id].envelope.recipient_token, now),
        ),
    ensures
        rows.contains(mailbox.envelopes[id]),
{
    let after = mailbox.with_acknowledged(acknowledged, then);
    law_acknowledgement_concerns_one_envelope(mailbox, acknowledged, then, id);
    law_time_concerns_overdue_envelopes(after, now, id);
    let place = fetch_place(mailbox.envelopes[id].envelope.recipient_token, now);
    assert(place(after.aged(now).envelopes[id]) is Some);
}

/// A deposit concerns its own envelope alone: a new one waits as it was handed in, a known
/// one stays what it is, and so does every other that time has not let go.
pub proof fn law_deposit_concerns_one_envelope(
    mailbox: MailboxView,
    envelope: EnvelopeRow,
    now: u64,
    id: Seq<char>,
)
    ensures
        ({
            let after = mailbox.with_deposit(envelope, now);
            &&& after.max_pending_envelopes == mailbox.max_pending_envelopes
            &&& mailbox.envelopes.contains_key(id) ==> after.envelopes.contains_key(id)
                && after.envelopes[id] == mailbox.aged(now).envelopes[id]
            &&& after.envelopes.contains_key(id) ==> mailbox.envelopes.contains_key(id) || id
                == envelope.message_id
            &&& !mailbox.envelopes.contains_key(envelope.message_id) && !mailbox.refuses(
                envelope,
                now,
            ) ==> after.envelopes.contains_key(envelope.message_id)
                && after.envelopes[envelope.message_id].envelope == envelope
                && after.envelopes[envelope.message_id].status == EnvelopeStatus::Pending
                && after.envelopes[envelope.message_id].delivered_at_unix_secs is None
            &&& mailbox.refuses(envelope, now) ==> !after.envelopes.contains_key(
                envelope.message_id,
            )
        }),
{
}

/// A deposit is refused exactly if the envelope is new and as many envelopes wait as the
/// mailbox may hold.
pub proof fn law_only_full_mailbox_refuses(mailbox: MailboxView, envelope: EnvelopeRow, now: u64)
    requires
        now <= 0x7fff_ffff_ffff_ffff,
        forall|id: Seq<char>|
            #![trigger mailbox.envelopes[id]]
            mailbox.envelopes.contains_key(id) ==> has_plain_times(mailbox.envelopes[id]),
    ensures
        mailbox.refuses(envelope, now) <==> {
            &&& !mailbox.envelopes.contains_key(envelope.message_id)
            &&& mailbox.envelopes.dom().filter(
                |id: Seq<char>| still_waits(mailbox.envelopes[id], now),
            ).len() >= mailbox.max_pending_envelopes
        },
{
    let waiting = mailbox.envelopes.dom().filter(
        |id: Seq<char>| still_waits(mailbox.envelopes[id], now),
    );
    assert forall|id: Seq<char>| waiting.contains(id) <==> mailbox.aged(now).pending().contains(
        id,
    ) by {
        law_time_concerns_overdue_envelopes(mailbox, now, id);
        if mailbox.envelopes.contains_key(id) {
            assert(is_pending()(mailbox.aged(now).envelopes[id]) <==> mailbox.aged(
                now,
            ).envelopes[id].status == EnvelopeStatus::Pending);
        }
    }
    assert(waiting =~= mailbox.aged(now).pending());
}

/// How many envelopes count as waiting: those that were neither acknowledged nor let go.
pub proof fn law_pending_envelopes_are_counted(mailbox: MailboxView, id: Seq<char>)
    ensures
        mailbox.pending().contains(id) <==> mailbox.envelopes.contains_key(id)
            && mailbox.envelopes[id].status == EnvelopeStatus::Pending,
{
}

/// What a mailbox is asked to keep for someone it hands out to that one: an envelope that
/// was taken in is in the next answer to its recipient, as it was deposited, unless its time
/// is over by then.
pub proof fn law_deposited_envelope_is_fetched(
    mailbox: MailboxView,
    envelope: OfflineView,
    now: u64,
    later: u64,
    response: MailboxResponseView,
)
    requires
        !mailbox.envelopes.contains_key(envelope.message_id),
        !mailbox.refuses(kept_envelope(envelope, now), now),
        now <= 0x7fff_ffff_ffff_ffff,
        later <= 0x7fff_ffff_ffff_ffff,
        envelope.expires_at_unix_secs matches Some(expires) ==> later < expires
            && expires <= 0x7fff_ffff_ffff_ffff,
        is_mailbox_answer(
            mailbox_after(mailbox, MailboxRequestView::Deposit(envelope), now),
            MailboxRequestView::Fetch { recipient_token: envelope.recipient_token },
            response,
            later,
        ),
    ensures
        response matches MailboxResponseView::Pending { envelopes } && envelopes.contains(envelope),
{
    let kept = mailbox_after(mailbox, MailboxRequestView::Deposit(envelope), now);
    let id = envelope.message_id;
    law_deposit_concerns_one_envelope(mailbox, kept_envelope(envelope, now), now, id);
    law_time_concerns_overdue_envelopes(kept, later, id);
    let place = fetch_place(envelope.recipient_token, later);
    let row = kept.envelopes[id];
    assert(kept.aged(later).envelopes[id] == row);
    assert(place(kept.aged(later).envelopes[id]) is Some);
    let rows = choose|rows: Seq<StoredEnvelopeRow>|
        is_selection::<Seq<char>, StoredEnvelopeRow, EnvelopeOrder>(
            rows,
            kept.aged(later).envelopes,
            place,
        ) && response == (MailboxResponseView::Pending {
            envelopes: all_handed_out(#[trigger] envelopes_of(rows)),
        });
    assert(rows.contains(row));
    let i = choose|i: int| 0 <= i < rows.len() && rows[i] == row;
    let handed = all_handed_out(envelopes_of(rows));
    assert(handed[i] == handed_out(row.envelope));
    assert(handed[i] == envelope);
}

/// A mailbox hands out nothing of another recipient.
pub proof fn law_only_own_envelopes_are_fetched(
    mailbox: MailboxView,
    token: Seq<char>,
    now: u64,
    response: MailboxResponseView,
)
    requires
        is_mailbox_answer(
            mailbox,
            MailboxRequestView::Fetch { recipient_token: token },
            response,
            now,
        ),
    ensures
        response matches MailboxResponseView::Pending { envelopes } && forall|i: int|
            0 <= i < envelopes.len() ==> (#[trigger] envelopes[i]).recipient_token == token,
{
    let place = fetch_place(token, now);
    let rows = choose|rows: Seq<StoredEnvelopeRow>|
        is_selection::<Seq<char>, StoredEnvelopeRow, EnvelopeOrder>(
            rows,
            mailbox.aged(now).envelopes,
            place,
        ) && response == (MailboxResponseView::Pending {
            envelopes: all_handed_out(#[trigger] envelopes_of(rows)),
        });
    let handed = all_handed_out(envelopes_of(rows));
    assert forall|i: int| 0 <= i < handed.len() implies (#[trigger] handed[i]).recipient_token
        == token by {
        assert(place(rows[i]) is Some);
        assert(handed[i] == handed_out(rows[i].envelope));
    }
}

} // verus!
