//! What the contracts add up to, stated over the views.

use crate::chat::{conversation_key, ChatStoreView, ConversationView, MessageView};
use crate::handlers::{recipients_among, RecipientView};
use crate::listing::ListingView;
use crate::market::{is_listing_position, listing_position, MarketplaceView};
use crate::reviewing::{
    is_review_position, lemma_no_review_position, review_position_in, MAX_RATING,
};
use crate::text::{byte_len, lemma_precedes_asymmetric, lemma_precedes_total, occurrences};
use vstd::prelude::*;

verus! {

/// The key of two users about a listing does not depend on which of them is
/// named first.
pub proof fn theorem_conversation_key_symmetric(listing_id: u64, a: Seq<char>, b: Seq<char>)
    ensures
        conversation_key(listing_id, a, b) == conversation_key(listing_id, b, a),
{
    lemma_precedes_asymmetric(a, b);
    if !crate::text::precedes(a, b) && !crate::text::precedes(b, a) {
        lemma_precedes_total(a, b);
    }
}

/// Whoever asks first, and in whichever order the two users are named, both
/// get the conversation with the same identifier: the second request finds
/// what the first one found or created, and leaves the store as it is.
pub proof fn theorem_get_or_create_either_order(
    store: ChatStoreView,
    listing_id: u64,
    title1: Seq<char>,
    title2: Seq<char>,
    a: Seq<char>,
    b: Seq<char>,
    time1: u64,
    time2: u64,
)
    requires
        store.wf(),
    ensures
        ({
            let first = store.get_or_create(listing_id, title1, a, b, time1);
            let second = first.0.get_or_create(listing_id, title2, b, a, time2);
            &&& second.1.id == first.1.id
            &&& second.1 == first.1
            &&& second.0 == first.0
        }),
{
    theorem_conversation_key_symmetric(listing_id, a, b);
}

/// The conversation after each of `messages` was appended in turn.
pub open spec fn after_messages(
    conversation: ConversationView,
    messages: Seq<MessageView>,
) -> ConversationView
    decreases messages.len(),
{
    if messages.len() == 0 {
        conversation
    } else {
        after_messages(conversation, messages.drop_last()).add_message(messages.last())
    }
}

/// In a conversation of `a` and `b`, messages that `a` sends are counted for
/// `b` one by one and never for `a`.
pub proof fn theorem_unread_counts_messages(
    conversation: ConversationView,
    a: Seq<char>,
    b: Seq<char>,
    messages: Seq<MessageView>,
)
    requires
        a != b,
        conversation.participants == seq![a, b],
        forall|i: int| 0 <= i < messages.len() ==> (#[trigger] messages[i]).sender_id == a,
    ensures
        after_messages(conversation, messages).participants == conversation.participants,
        after_messages(conversation, messages).unread(b) == conversation.unread(b)
            + messages.len(),
        after_messages(conversation, messages).unread(a) == conversation.unread(a),
        after_messages(conversation, messages).mark_as_read(b).unread(b) == 0,
    decreases messages.len(),
{
    if messages.len() > 0 {
        let front = messages.drop_last();
        theorem_unread_counts_messages(conversation, a, b, front);
        let people = seq![a, b];
        assert(occurrences(people.drop_last().drop_last(), b) == 0);
        assert(occurrences(people.drop_last(), b) == 0);
    }
}

/// After `count` messages from `a` in a new conversation of `a` and `b`, the
/// counter of `b` is `count` and the counter of `a` is zero.
pub proof fn theorem_unread_counts_new_conversation(
    listing_id: u64,
    listing_title: Seq<char>,
    a: Seq<char>,
    b: Seq<char>,
    timestamp: u64,
    messages: Seq<MessageView>,
)
    requires
        a != b,
        forall|i: int| 0 <= i < messages.len() ==> (#[trigger] messages[i]).sender_id == a,
    ensures
        ({
            let conversation = ConversationView::created(
                listing_id,
                listing_title,
                seq![a, b],
                timestamp,
            );
            &&& after_messages(conversation, messages).unread(b) == messages.len()
            &&& after_messages(conversation, messages).unread(a) == 0
        }),
{
    let people = seq![a, b];
    let conversation = ConversationView::created(listing_id, listing_title, people, timestamp);
    theorem_unread_counts_messages(conversation, a, b, messages);
}

/// Reading a conversation a second time changes nothing: after the first
/// time the reader's counter is zero and every message of another sender is
/// flagged read.
pub proof fn theorem_mark_as_read_idempotent(conversation: ConversationView, user: Seq<char>)
    ensures
        conversation.mark_as_read(user).mark_as_read(user) == conversation.mark_as_read(user),
        conversation.mark_as_read(user).unread(user) == 0,
        forall|i: int|
            0 <= i < conversation.messages.len() && conversation.messages[i].sender_id != user
                ==> (#[trigger] conversation.mark_as_read(user).messages[i]).read,
{
    let once = conversation.mark_as_read(user);
    let twice = once.mark_as_read(user);
    assert(twice.messages =~= once.messages);
    assert(twice.unread_counts =~= once.unread_counts);
}

/// An event reaches every connected participant other than the one left
/// out, at the connection registered for it, and nobody else: never the one
/// left out, never a user who takes no part, never a user who is not
/// connected.
pub proof fn theorem_broadcast_recipients(
    participants: Seq<Seq<char>>,
    clients: Map<Seq<char>, Seq<u8>>,
    sender: Seq<char>,
)
    ensures
        forall|i: int|
            0 <= i < recipients_among(participants, clients, Some(sender)).len() ==> {
                let recipient = #[trigger] recipients_among(participants, clients, Some(sender))[i];
                &&& recipient.user_id != sender
                &&& participants.contains(recipient.user_id)
                &&& clients.contains_key(recipient.user_id)
                &&& recipient.client_principal == clients[recipient.user_id]
            },
        forall|user: Seq<char>|
            participants.contains(user) && user != sender && clients.contains_key(user)
                ==> recipients_among(participants, clients, Some(sender)).contains(
                RecipientView { user_id: user, client_principal: clients[user] },
            ),
    decreases participants.len(),
{
    let all = recipients_among(participants, clients, Some(sender));
    if participants.len() > 0 {
        let front = participants.drop_last();
        let last = participants.last();
        let before = recipients_among(front, clients, Some(sender));
        theorem_broadcast_recipients(front, clients, sender);
        assert forall|user: Seq<char>|
            participants.contains(user) && user != sender && clients.contains_key(
                user,
            ) implies all.contains(
            RecipientView { user_id: user, client_principal: clients[user] },
        ) by {
            let wanted = RecipientView { user_id: user, client_principal: clients[user] };
            if user == last {
                assert(all[all.len() - 1] == wanted);
            } else {
                let j = choose|j: int| 0 <= j < participants.len() && participants[j] == user;
                assert(front[j] == user);
                assert(front.contains(user));
                let k = choose|k: int| 0 <= k < before.len() && before[k] == wanted;
                assert(all[k] == wanted);
            }
        }
    }
}

/// A user who is not the owner of a listing cannot change it: whatever the
/// texts are, the request is refused for want of ownership, and every
/// listing stays as it is. Only the images that came with the request are
/// stored.
pub proof fn theorem_edit_listing_owner_only(
    state: MarketplaceView,
    caller: Seq<char>,
    id: u64,
    title: Seq<char>,
    description: Seq<char>,
    category: Seq<char>,
    price_bits: u64,
    amount: u32,
    images: Seq<Seq<char>>,
    categories_path: Seq<char>,
)
    requires
        state.listing(id) matches Some(listing) && listing.owner_id != caller,
    ensures
        ({
            let outcome = state.edit_listing(
                caller,
                id,
                title,
                description,
                category,
                price_bits,
                amount,
                images,
                categories_path,
            );
            &&& outcome.1 == Err::<Seq<char>, Seq<char>>(
                "Brak uprawnień: Nie jesteś właścicielem tego ogłoszenia."@,
            )
            &&& outcome.0.listings == state.listings
            &&& outcome.0 == state.with_images(crate::images::encoded(images))
        }),
{
}

/// A user who is not the owner of a listing cannot delete it: the request
/// is refused for want of ownership and nothing changes.
pub proof fn theorem_delete_listing_owner_only(state: MarketplaceView, caller: Seq<char>, id: u64)
    requires
        state.listing(id) matches Some(listing) && listing.owner_id != caller,
    ensures
        state.delete_listing(caller, id) == (
            state,
            Some("Brak uprawnień: Nie jesteś właścicielem tego ogłoszenia."@),
        ),
{
}

/// A rating above 5 is refused whoever gives it and the state stays as it
/// is; a rating up to 5 from a user who does not own the listing and has not
/// reviewed it is accepted.
pub proof fn theorem_rating_range(
    state: MarketplaceView,
    caller: Seq<char>,
    listing_id: u64,
    rating: u8,
    comment: Seq<char>,
)
    ensures
        rating > MAX_RATING ==> state.add_review(caller, listing_id, rating, comment) == (
            state,
            Err::<crate::review::ReviewView, Seq<char>>("Ocena musi być w zakresie od 0 do 5."@),
        ),
        rating <= MAX_RATING && state.user(caller) is Some && (state.listing(
            listing_id,
        ) matches Some(listing) && listing.owner_id != caller && review_position_in(
            listing,
            caller,
        ) is None) ==> state.add_review(caller, listing_id, rating, comment).1 is Ok,
{
}

/// A user reviews a listing once: after a review was accepted, another one
/// from the same user for the same listing is refused, whatever it says, and
/// the state stays as it is.
pub proof fn theorem_one_review_per_user(
    state: MarketplaceView,
    caller: Seq<char>,
    listing_id: u64,
    rating1: u8,
    comment1: Seq<char>,
    rating2: u8,
    comment2: Seq<char>,
)
    requires
        state.add_review(caller, listing_id, rating1, comment1).1 is Ok,
    ensures
        ({
            let first = state.add_review(caller, listing_id, rating1, comment1);
            let second = first.0.add_review(caller, listing_id, rating2, comment2);
            &&& second.1 is Err
            &&& second.0 == first.0
            &&& rating2 <= MAX_RATING ==> second.1 == Err::<crate::review::ReviewView, Seq<char>>(
                "Już dodałeś opinię dla tego ogłoszenia."@,
            )
        }),
{
    let first = state.add_review(caller, listing_id, rating1, comment1);
    let i = listing_position(state.listings, listing_id)->0;
    let after = first.0.listings;
    assert(is_listing_position(after, listing_id, i));
    let listing = state.listings[i];
    let reviews = after[i].reviews->0;
    let last = reviews.len() - 1;
    if listing.reviews is Some {
        let before = listing.reviews->0;
        assert forall|j: int| 0 <= j < last implies (#[trigger] reviews[j]).owner_id
            != caller by {
            lemma_no_review_position(before, caller, j);
        }
    }
    assert(is_review_position(reviews, caller, last));
}

/// The bounds on the length of a title are both allowed: a title as long as
/// the lower or the upper bound is accepted, and one that is one byte
/// shorter or longer is refused.
pub proof fn theorem_title_boundary(
    state: MarketplaceView,
    caller: Seq<char>,
    title: Seq<char>,
    description: Seq<char>,
    category: Seq<char>,
    price_bits: u64,
    amount: u32,
    images: Seq<Seq<char>>,
    categories_path: Seq<char>,
    timestamp: u64,
)
    requires
        state.user(caller) is Some,
        state.description_fits(description),
        state.config.min_title_len <= state.config.max_title_len,
    ensures
        ({
            let outcome = state.add_listing(
                caller,
                title,
                description,
                category,
                price_bits,
                amount,
                images,
                categories_path,
                timestamp,
            ).1;
            &&& byte_len(title) == state.config.min_title_len ==> outcome is Ok
            &&& byte_len(title) == state.config.max_title_len ==> outcome is Ok
            &&& byte_len(title) + 1 == state.config.min_title_len ==> outcome == Err::<
                ListingView,
                Seq<char>,
            >("Długość tytułu jest poza zakresem!"@)
            &&& byte_len(title) == state.config.max_title_len + 1 ==> outcome == Err::<
                ListingView,
                Seq<char>,
            >("Długość tytułu jest poza zakresem!"@)
            &&& outcome is Ok <==> state.config.min_title_len <= byte_len(title)
                <= state.config.max_title_len
        }),
{
}

} // verus!
