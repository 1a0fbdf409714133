//! Messages that arrived before the commit that governs them.
//!
//! A delivery service may hand out a message of the next epoch before the
//! commit that opens that epoch. Such messages are kept, and once the commit
//! has been merged they are processed in an order that lets each of them be
//! decrypted: application messages first, then proposals, then commits.

use vstd::prelude::*;
use crate::error::CryptoError;
use crate::x509::bytes_equal;

verus! {

/// What a message of the group protocol carries.
#[derive(Debug, Clone, Copy, PartialEq, Eq, Structural)]
pub enum ContentType {
    Application,
    Proposal,
    Commit,
}

impl ContentType {
    /// The number of the content type on the wire, which is also its rank in
    /// the processing order.
    pub open spec fn tag(self) -> u8 {
        match self {
            ContentType::Application => 1,
            ContentType::Proposal => 2,
            ContentType::Commit => 3,
        }
    }

    /// The number of the content type: 1, 2 or 3.
    pub fn as_u8(&self) -> (tag: u8)
        ensures
            tag == self.tag(),
    {
        match self {
            ContentType::Application => 1,
            ContentType::Proposal => 2,
            ContentType::Commit => 3,
        }
    }
}

/// What the bytes of a buffered message turned out to be.
#[derive(Debug, Clone, Copy, PartialEq, Eq, Structural)]
pub enum MessageKind {
    /// Bytes that are no message at all.
    Malformed,
    /// A welcome, a group info or a key package: nothing that is ever
    /// buffered on purpose.
    Other,
    /// A public or a private message of the given content type.
    Protocol(ContentType),
}

/// A message kept for later: the identifier of the group it belongs to, its
/// bytes, and what deserializing the bytes gave.
#[derive(Debug, Clone)]
pub struct MlsPendingMessage {
    pub id: Vec<u8>,
    pub message: Vec<u8>,
    pub kind: MessageKind,
}

/// The message in place `i` belongs to the group `group_id`.
pub open spec fn belongs(pending: Seq<MlsPendingMessage>, group_id: Seq<u8>, i: int) -> bool {
    0 <= i < pending.len() && pending[i].id@ == group_id
}

/// The rank of the content type of the message in place `i`, where it is a
/// public or a private message.
pub open spec fn content_type_of(pending: Seq<MlsPendingMessage>, i: int) -> Option<u8> {
    match pending[i].kind {
        MessageKind::Protocol(content_type) => Some(content_type.tag()),
        _ => None,
    }
}

/// The error that a message without content type is refused with: bytes that
/// are no message are malformed, a message of another kind was buffered by
/// mistake of the caller.
pub open spec fn unreadable_error(pending: Seq<MlsPendingMessage>, i: int) -> CryptoError {
    match pending[i].kind {
        MessageKind::Malformed => CryptoError::MalformedInput,
        _ => CryptoError::ConsumerError,
    }
}

/// Every message of the group has a content type.
pub open spec fn all_readable(pending: Seq<MlsPendingMessage>, group_id: Seq<u8>) -> bool {
    forall|i: int| #[trigger] belongs(pending, group_id, i) ==> content_type_of(pending, i) is Some
}

/// The message in place `i` is the first of the group without content type.
pub open spec fn first_unreadable(
    pending: Seq<MlsPendingMessage>,
    group_id: Seq<u8>,
    i: int,
) -> bool {
    &&& belongs(pending, group_id, i)
    &&& content_type_of(pending, i) is None
    &&& forall|j: int|
        0 <= j < i && #[trigger] belongs(pending, group_id, j) ==> content_type_of(pending, j)
            is Some
}

/// The message in place `i` is processed before the one in place `j`: its
/// content type has the lower number, or the same and it was buffered first.
pub open spec fn comes_before(pending: Seq<MlsPendingMessage>, i: int, j: int) -> bool {
    let a = content_type_of(pending, i).unwrap();
    let b = content_type_of(pending, j).unwrap();
    a < b || (a == b && i < j)
}

/// `order` lists the places of the group's messages, each once, in the order
/// in which they are to be processed.
pub open spec fn is_processing_order(
    pending: Seq<MlsPendingMessage>,
    group_id: Seq<u8>,
    order: Seq<usize>,
) -> bool {
    &&& forall|k: int|
        0 <= k < order.len() ==> belongs(pending, group_id, #[trigger] order[k] as int)
    &&& forall|i: int| #[trigger] belongs(pending, group_id, i) ==> order.contains(i as usize)
    &&& forall|k: int, l: int|
        0 <= k < l < order.len() ==> comes_before(
            pending,
            #[trigger] order[k] as int,
            #[trigger] order[l] as int,
        )
}

/// Each place of `order` comes before the places after it.
pub open spec fn sorted(pending: Seq<MlsPendingMessage>, order: Seq<usize>) -> bool {
    forall|k: int, l: int|
        0 <= k < l < order.len() ==> comes_before(
            pending,
            #[trigger] order[k] as int,
            #[trigger] order[l] as int,
        )
}

/// Two sorted lists of the same places are the same list.
pub proof fn lemma_sorted_lists_agree(
    pending: Seq<MlsPendingMessage>,
    a: Seq<usize>,
    b: Seq<usize>,
)
    requires
        sorted(pending, a),
        sorted(pending, b),
        forall|x: usize| a.contains(x) <==> b.contains(x),
    ensures
        a == b,
    decreases a.len(),
{
    if a.len() == 0 {
        if b.len() > 0 {
            assert(b.contains(b[0]));
        }
        assert(a =~= b);
    } else if b.len() == 0 {
        assert(a.contains(a[0]));
    } else {
        assert(a.contains(a[0]));
        assert(b.contains(b[0]));
        let m = choose|m: int| 0 <= m < b.len() && b[m] == a[0];
        let n = choose|n: int| 0 <= n < a.len() && a[n] == b[0];
        if m > 0 {
            assert(comes_before(pending, b[0] as int, b[m] as int));
        }
        if n > 0 {
            assert(comes_before(pending, a[0] as int, a[n] as int));
        }
        assert(a[0] == b[0]);
        let a_rest = a.drop_first();
        let b_rest = b.drop_first();
        assert forall|k: int, l: int| 0 <= k < l < a_rest.len() implies comes_before(
            pending,
            #[trigger] a_rest[k] as int,
            #[trigger] a_rest[l] as int,
        ) by {
            assert(comes_before(pending, a[k + 1] as int, a[l + 1] as int));
        }
        assert forall|k: int, l: int| 0 <= k < l < b_rest.len() implies comes_before(
            pending,
            #[trigger] b_rest[k] as int,
            #[trigger] b_rest[l] as int,
        ) by {
            assert(comes_before(pending, b[k + 1] as int, b[l + 1] as int));
        }
        assert forall|x: usize| a_rest.contains(x) <==> b_rest.contains(x) by {
            if a_rest.contains(x) {
                let k = choose|k: int| 0 <= k < a_rest.len() && a_rest[k] == x;
                assert(comes_before(pending, a[0] as int, a[k + 1] as int));
                assert(a.contains(x));
                let l = choose|l: int| 0 <= l < b.len() && b[l] == x;
                assert(b_rest[l - 1] == x);
            }
            if b_rest.contains(x) {
                let k = choose|k: int| 0 <= k < b_rest.len() && b_rest[k] == x;
                assert(comes_before(pending, b[0] as int, b[k + 1] as int));
                assert(b.contains(x));
                let l = choose|l: int| 0 <= l < a.len() && a[l] == x;
                assert(a_rest[l - 1] == x);
            }
        }
        lemma_sorted_lists_agree(pending, a_rest, b_rest);
        assert(a =~= seq![a[0]] + a_rest);
        assert(b =~= seq![b[0]] + b_rest);
    }
}

/// A group's messages have one processing order only.
pub proof fn lemma_processing_order_is_unique(
    pending: Seq<MlsPendingMessage>,
    group_id: Seq<u8>,
    a: Seq<usize>,
    b: Seq<usize>,
)
    requires
        is_processing_order(pending, group_id, a),
        is_processing_order(pending, group_id, b),
    ensures
        a == b,
{
    assert forall|x: usize| a.contains(x) <==> b.contains(x) by {
        if a.contains(x) {
            let k = choose|k: int| 0 <= k < a.len() && a[k] == x;
            assert(belongs(pending, group_id, a[k] as int));
        }
        if b.contains(x) {
            let k = choose|k: int| 0 <= k < b.len() && b[k] == x;
            assert(belongs(pending, group_id, b[k] as int));
        }
    }
    lemma_sorted_lists_agree(pending, a, b);
}

/// The parent of a conversation, as far as replaying messages needs it.
#[derive(Debug, Clone, Copy, PartialEq, Eq, Structural)]
pub enum ParentConversation {
    /// The conversation has no parent.
    NoParent,
    /// The conversation has a parent, and it is known.
    Found,
    /// The conversation has a parent that is not known.
    Missing,
}

/// What to do with the messages buffered for a group.
#[derive(Debug, Clone)]
pub enum PendingMessages {
    /// Drop them unread: the group is being rejoined, and what was buffered
    /// for its old state cannot be decrypted any more.
    Discard,
    /// Decrypt the messages in these places of the buffer, in this order.
    Decrypt(Vec<usize>),
}

/// The entry in place `k` of a plan under construction is rightly before the
/// one in place `l`.
spec fn in_order(types: Seq<u8>, order: Seq<usize>, k: int, l: int) -> bool {
    types[k] < types[l] || (types[k] == types[l] && order[k] < order[l])
}

/// `order` is the plan for the first `i` messages of the buffer, and `types`
/// holds the content type of each message of the plan.
#[verifier::opaque]
spec fn plan_so_far(
    pending: Seq<MlsPendingMessage>,
    group_id: Seq<u8>,
    order: Seq<usize>,
    types: Seq<u8>,
    i: int,
) -> bool {
    &&& order.len() == types.len()
    &&& forall|k: int|
        0 <= k < order.len() ==> (#[trigger] order[k]) < i && belongs(
            pending,
            group_id,
            order[k] as int,
        ) && content_type_of(pending, order[k] as int) == Some(types[k])
    &&& forall|j: int|
        0 <= j < i && #[trigger] belongs(pending, group_id, j) ==> content_type_of(pending, j)
            is Some && order.contains(j as usize)
    &&& forall|k: int, l: int| 0 <= k < l < order.len() ==> #[trigger] in_order(types, order, k, l)
}

/// The empty plan is the plan for no messages.
proof fn lemma_plan_start(pending: Seq<MlsPendingMessage>, group_id: Seq<u8>)
    ensures
        plan_so_far(pending, group_id, Seq::empty(), Seq::empty(), 0),
{
    reveal(plan_so_far);
}

/// The content types of a plan never go down.
proof fn lemma_plan_types_ascend(
    pending: Seq<MlsPendingMessage>,
    group_id: Seq<u8>,
    order: Seq<usize>,
    types: Seq<u8>,
    i: int,
)
    requires
        plan_so_far(pending, group_id, order, types, i),
    ensures
        order.len() == types.len(),
        forall|k: int, l: int| 0 <= k < l < types.len() ==> types[k] <= types[l],
        forall|j: int|
            0 <= j < i && #[trigger] belongs(pending, group_id, j) ==> content_type_of(pending, j)
                is Some,
{
    reveal(plan_so_far);
    assert forall|k: int, l: int| 0 <= k < l < types.len() implies types[k] <= types[l] by {
        assert(in_order(types, order, k, l));
    }
}

/// A message of another group leaves the plan as it is.
proof fn lemma_plan_skip(
    pending: Seq<MlsPendingMessage>,
    group_id: Seq<u8>,
    order: Seq<usize>,
    types: Seq<u8>,
    i: int,
)
    requires
        plan_so_far(pending, group_id, order, types, i),
        !belongs(pending, group_id, i),
    ensures
        plan_so_far(pending, group_id, order, types, i + 1),
{
    reveal(plan_so_far);
}

/// A message of the group goes into the plan behind the messages of its own
/// content type and of the types before it.
proof fn lemma_plan_insert(
    pending: Seq<MlsPendingMessage>,
    group_id: Seq<u8>,
    order: Seq<usize>,
    types: Seq<u8>,
    i: usize,
    place: int,
    content_type: u8,
)
    requires
        plan_so_far(pending, group_id, order, types, i as int),
        belongs(pending, group_id, i as int),
        content_type_of(pending, i as int) == Some(content_type),
        0 <= place <= types.len(),
        forall|k: int| 0 <= k < place ==> types[k] <= content_type,
        forall|k: int| place <= k < types.len() ==> types[k] > content_type,
    ensures
        plan_so_far(
            pending,
            group_id,
            order.insert(place, i),
            types.insert(place, content_type),
            i + 1,
        ),
{
    reveal(plan_so_far);
    let new_order = order.insert(place, i);
    let new_types = types.insert(place, content_type);
    assert forall|k: int| 0 <= k < new_order.len() implies (#[trigger] new_order[k]) < i + 1
        && belongs(pending, group_id, new_order[k] as int) && content_type_of(
        pending,
        new_order[k] as int,
    ) == Some(new_types[k]) by {
        if k < place {
            assert(new_order[k] == order[k] && new_types[k] == types[k]);
        } else if k > place {
            assert(new_order[k] == order[k - 1] && new_types[k] == types[k - 1]);
        }
    }
    assert forall|j: int| 0 <= j < i + 1 && #[trigger] belongs(pending, group_id, j) implies
        content_type_of(pending, j) is Some && new_order.contains(j as usize) by {
        if j < i {
            let k = choose|k: int| 0 <= k < order.len() && order[k] == j as usize;
            if k < place {
                assert(new_order[k] == j as usize);
            } else {
                assert(new_order[k + 1] == j as usize);
            }
        } else {
            assert(new_order[place] == j as usize);
        }
    }
    assert forall|k: int, l: int| 0 <= k < l < new_order.len() implies #[trigger] in_order(
        new_types,
        new_order,
        k,
        l,
    ) by {
        let k0 = if k < place {
            k
        } else {
            k - 1
        };
        let l0 = if l < place {
            l
        } else {
            l - 1
        };
        if k != place {
            assert(new_order[k] == order[k0] && new_types[k] == types[k0]);
        }
        if l != place {
            assert(new_order[l] == order[l0] && new_types[l] == types[l0]);
        }
        if k != place && l != place {
            assert(in_order(types, order, k0, l0));
        }
    }
}

/// The plan for all messages is the processing order.
proof fn lemma_plan_done(
    pending: Seq<MlsPendingMessage>,
    group_id: Seq<u8>,
    order: Seq<usize>,
    types: Seq<u8>,
)
    requires
        plan_so_far(pending, group_id, order, types, pending.len() as int),
    ensures
        all_readable(pending, group_id),
        is_processing_order(pending, group_id, order),
{
    reveal(plan_so_far);
    assert forall|k: int, l: int| 0 <= k < l < order.len() implies comes_before(
        pending,
        #[trigger] order[k] as int,
        #[trigger] order[l] as int,
    ) by {
        assert(in_order(types, order, k, l));
    }
}

/// The first place in `types` that holds a number above `content_type`; the
/// length where there is none.
fn insertion_point(types: &Vec<u8>, content_type: u8) -> (place: usize)
    requires
        forall|k: int, l: int| 0 <= k < l < types@.len() ==> types@[k] <= types@[l],
    ensures
        place <= types@.len(),
        forall|k: int| 0 <= k < place ==> types@[k] <= content_type,
        forall|k: int| place <= k < types@.len() ==> types@[k] > content_type,
{
    let mut place: usize = 0;
    while place < types.len() && types[place] <= content_type
        invariant
            place <= types@.len(),
            forall|k: int| 0 <= k < place ==> types@[k] <= content_type,
        decreases types@.len() - place,
    {
        place += 1;
    }
    place
}

/// Plans the processing of the messages buffered for the group `group_id`.
///
/// Where the group is being rejoined, the messages are to be dropped. Else
/// the plan lists the group's messages by content type, application messages
/// first, then proposals, then commits, and within a content type in the
/// order in which they were buffered. The first message of the group that is
/// no public or private message makes the whole plan fail. So does a parent
/// conversation that is not known, where there is a message to process.
pub fn restore_pending_messages(
    group_id: &Vec<u8>,
    pending: &Vec<MlsPendingMessage>,
    parent: ParentConversation,
    is_rejoin: bool,
) -> (plan: Result<PendingMessages, CryptoError>)
    ensures
        is_rejoin ==> plan matches Ok(PendingMessages::Discard),
        !is_rejoin ==> match plan {
            Ok(PendingMessages::Decrypt(order)) => all_readable(pending@, group_id@)
                && is_processing_order(pending@, group_id@, order@) && (order@.len() == 0
                || parent != ParentConversation::Missing),
            Ok(PendingMessages::Discard) => false,
            Err(e) => if all_readable(pending@, group_id@) {
                &&& e == CryptoError::ParentGroupNotFound
                &&& parent == ParentConversation::Missing
                &&& exists|i: int| #[trigger] belongs(pending@, group_id@, i)
            } else {
                exists|i: int| #[trigger]
                    first_unreadable(pending@, group_id@, i) && e == unreadable_error(
                        pending@,
                        i,
                    )
            },
        },
{
    if is_rejoin {
        return Ok(PendingMessages::Discard);
    }
    let mut order: Vec<usize> = Vec::new();
    let mut types: Vec<u8> = Vec::new();
    let mut i: usize = 0;
    proof {
        lemma_plan_start(pending@, group_id@);
    }
    while i < pending.len()
        invariant
            i <= pending@.len(),
            plan_so_far(pending@, group_id@, order@, types@, i as int),
            !is_rejoin,
        decreases pending@.len() - i,
    {
        proof {
            lemma_plan_types_ascend(pending@, group_id@, order@, types@, i as int);
        }
        if bytes_equal(&pending[i].id, group_id) {
            let content_type = match pending[i].kind {
                MessageKind::Protocol(content_type) => content_type.as_u8(),
                MessageKind::Other => {
                    assert(first_unreadable(pending@, group_id@, i as int));
                    return Err(CryptoError::ConsumerError);
                },
                MessageKind::Malformed => {
                    assert(first_unreadable(pending@, group_id@, i as int));
                    return Err(CryptoError::MalformedInput);
                },
            };
            let place = insertion_point(&types, content_type);
            proof {
                lemma_plan_insert(
                    pending@,
                    group_id@,
                    order@,
                    types@,
                    i,
                    place as int,
                    content_type,
                );
            }
            order.insert(place, i);
            types.insert(place, content_type);
        } else {
            proof {
                lemma_plan_skip(pending@, group_id@, order@, types@, i as int);
            }
        }
        i += 1;
    }
    proof {
        lemma_plan_done(pending@, group_id@, order@, types@);
    }
    if order.len() > 0 {
        match parent {
            ParentConversation::Missing => {
                assert(belongs(pending@, group_id@, order@[0] as int));
                return Err(CryptoError::ParentGroupNotFound);
            },
            _ => {},
        }
    }
    Ok(PendingMessages::Decrypt(order))
}

/// The decrypted messages, or nothing where there are none.
pub fn non_empty<T>(decrypted: Vec<T>) -> (messages: Option<Vec<T>>)
    ensures
        messages == (if decrypted@.len() == 0 {
            None
        } else {
            Some(decrypted)
        }),
{
    if decrypted.is_empty() {
        None
    } else {
        Some(decrypted)
    }
}

} // verus!
