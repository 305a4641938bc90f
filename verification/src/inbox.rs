//! The rules of the Inbox that a remote (mobile) surface may act on: which
//! items can be read, dismissed, cleared or answered, and what each action
//! changes in the persisted queue.
use vstd::prelude::*;

use crate::mailbox::MessageInputMode;
use crate::time::{instant_millis, rfc3339_instant, rfc3339_millis};
use crate::text::{chars_of, str_eq, strings_view, trim_spec, trimmed_chars};

verus! {

/// The fields of an automation approval that answering it needs, each when
/// it is a string.
#[derive(Debug, Clone, PartialEq, Eq)]
pub struct AutomationApprovalRef {
    pub blueprint_id: Option<String>,
    pub run_id: Option<String>,
    pub blueprint_path: Option<String>,
    pub node: Option<String>,
}

/// What the Inbox rules read of one queue item.
#[derive(Debug, Clone, PartialEq, Eq)]
pub struct InboxItem {
    /// `id`, when it is a string.
    pub id: Option<String>,
    /// `type`, when it is a string.
    pub item_type: Option<String>,
    /// Whether the item has an `inbox_notification_id` key at all.
    pub has_inbox_notification_id: bool,
    /// `inbox_notification_id`, when it is a string.
    pub inbox_notification_id: Option<String>,
    /// The item's `automation_approval`, when the key is present.
    pub automation_approval: Option<AutomationApprovalRef>,
    /// `notification_status`, when it is a string.
    pub notification_status: Option<String>,
    pub has_dismissed: bool,
    pub has_provider_choice_pending: bool,
    pub has_provider_choice_sent: bool,
    /// `read`, when it is a boolean.
    pub read: Option<bool>,
    /// The string entries of `approval_choices`.
    pub approval_choices: Vec<String>,
    /// `timestamp`, when it is an integer.
    pub timestamp: Option<i64>,
    /// `agent_session_id`, when it is a string.
    pub agent_session_id: Option<String>,
    /// `provider_choice_pending`, when it is a string.
    pub provider_choice_pending: Option<String>,
    /// `provider_choice_sent`, when it is a string.
    pub provider_choice_sent: Option<String>,
}

pub open spec fn opt_view(o: Option<String>) -> Option<Seq<char>> {
    match o {
        Some(s) => Some(s@),
        None => None,
    }
}

fn opt_is(o: &Option<String>, text: &str) -> (r: bool)
    ensures
        r == (opt_view(*o) == Some(text@)),
{
    match o {
        Some(s) => str_eq(s.as_str(), text),
        None => false,
    }
}

/// An item from before notifications and automation approvals were tracked.
pub open spec fn legacy_spec(i: InboxItem) -> bool {
    !i.has_inbox_notification_id && i.automation_approval is None
}

/// A provider choice whose delivery is not yet acknowledged.
pub open spec fn unresolved_spec(i: InboxItem) -> bool {
    i.has_provider_choice_pending || (i.has_provider_choice_sent && i.read != Some(true))
}

pub open spec fn clearable_spec(i: InboxItem) -> bool {
    legacy_spec(i) && !i.has_dismissed && !unresolved_spec(i)
        && (opt_view(i.item_type) == Some("agent_completed"@) || opt_view(i.item_type) == Some("automation_completed"@))
}

pub open spec fn pending_approval_spec(i: InboxItem) -> bool {
    i.automation_approval is Some
        || (opt_view(i.item_type) == Some("approval_request"@) && opt_view(i.notification_status) == Some("awaiting_reply"@))
}

impl InboxItem {
    pub fn is_legacy_queue_item(&self) -> (r: bool)
        ensures
            r == legacy_spec(*self),
    {
        !self.has_inbox_notification_id && self.automation_approval.is_none()
    }

    pub fn provider_choice_acknowledgement_unresolved(&self) -> (r: bool)
        ensures
            r == unresolved_spec(*self),
    {
        self.has_provider_choice_pending || (self.has_provider_choice_sent && self.read != Some(true))
    }

    /// A finished legacy completion that clearing read items may remove.
    pub fn is_clearable_legacy_completion(&self) -> (r: bool)
        ensures
            r == clearable_spec(*self),
    {
        self.is_legacy_queue_item() && !self.has_dismissed && !self.provider_choice_acknowledgement_unresolved()
            && (opt_is(&self.item_type, "agent_completed") || opt_is(&self.item_type, "automation_completed"))
    }

    /// An approval still waiting for its answer.
    pub fn is_pending_approval(&self) -> (r: bool)
        ensures
            r == pending_approval_spec(*self),
    {
        self.automation_approval.is_some()
            || (opt_is(&self.item_type, "approval_request") && opt_is(&self.notification_status, "awaiting_reply"))
    }
}

/// An item may be marked read unless it awaits an approval or a provider
/// choice is in flight.
pub fn validate_remote_mark_read(item: &InboxItem) -> (r: Result<(), String>)
    ensures
        pending_approval_spec(*item) ==> (r matches Err(e) && e@ == "pending_approval_cannot_be_marked_read"@),
        !pending_approval_spec(*item) && item.has_provider_choice_pending
            ==> (r matches Err(e) && e@ == "provider_choice_delivery_uncertain_cannot_be_marked_read"@),
        !pending_approval_spec(*item) && !item.has_provider_choice_pending ==> r is Ok,
{
    if item.is_pending_approval() {
        return Err("pending_approval_cannot_be_marked_read".to_owned());
    }
    if item.has_provider_choice_pending {
        return Err("provider_choice_delivery_uncertain_cannot_be_marked_read".to_owned());
    }
    Ok(())
}

/// `i` is the first item whose id is `id`.
pub open spec fn first_with_id(items: Seq<InboxItem>, id: Seq<char>, i: int) -> bool {
    0 <= i < items.len() && opt_view(items[i].id) == Some(id)
        && forall|j: int| 0 <= j < i ==> opt_view(#[trigger] items[j].id) != Some(id)
}

/// Some item has the id.
pub open spec fn has_item(items: Seq<InboxItem>, id: Seq<char>) -> bool {
    exists|j: int| 0 <= j < items.len() && opt_view(#[trigger] items[j].id) == Some(id)
}

/// `r` is the error `msg`.
pub open spec fn err_is<T>(r: Result<T, String>, msg: Seq<char>) -> bool {
    r is Err && r->Err_0@ == msg
}

/// The first item with the id, or `inbox_item_not_found`.
pub fn current_queue_item(items: &[InboxItem], item_id: &str) -> (r: Result<usize, String>)
    ensures
        match r {
            Ok(i) => first_with_id(items@, item_id@, i as int),
            Err(e) => e@ == "inbox_item_not_found"@
                && forall|j: int| 0 <= j < items@.len() ==> opt_view(#[trigger] items@[j].id) != Some(item_id@),
        },
{
    let mut i: usize = 0;
    while i < items.len()
        invariant
            i <= items@.len(),
            forall|j: int| 0 <= j < i ==> opt_view(#[trigger] items@[j].id) != Some(item_id@),
        decreases items@.len() - i,
    {
        if opt_is(&items[i].id, item_id) {
            return Ok(i);
        }
        i = i + 1;
    }
    Err("inbox_item_not_found".to_owned())
}

/// The Inbox actions a remote surface may request.
#[derive(Debug, Clone, Copy, PartialEq, Eq, Structural)]
pub enum InboxAction {
    MarkRead,
    MarkAllRead,
    ClearRead,
    Dismiss,
    ResolveApproval,
}

pub open spec fn inbox_action_spec(action: Seq<char>) -> Option<InboxAction> {
    if action == "mark_read"@ {
        Some(InboxAction::MarkRead)
    } else if action == "mark_all_read"@ {
        Some(InboxAction::MarkAllRead)
    } else if action == "clear_read"@ {
        Some(InboxAction::ClearRead)
    } else if action == "dismiss"@ {
        Some(InboxAction::Dismiss)
    } else if action == "resolve_approval"@ {
        Some(InboxAction::ResolveApproval)
    } else {
        None
    }
}

/// Reads a requested action; anything else is `unsupported_inbox_action`.
pub fn parse_inbox_action(action: &str) -> (r: Result<InboxAction, String>)
    ensures
        match inbox_action_spec(action@) {
            Some(a) => r == Ok::<InboxAction, String>(a),
            None => r matches Err(e) && e@ == "unsupported_inbox_action"@,
        },
{
    if str_eq(action, "mark_read") {
        Ok(InboxAction::MarkRead)
    } else if str_eq(action, "mark_all_read") {
        Ok(InboxAction::MarkAllRead)
    } else if str_eq(action, "clear_read") {
        Ok(InboxAction::ClearRead)
    } else if str_eq(action, "dismiss") {
        Ok(InboxAction::Dismiss)
    } else if str_eq(action, "resolve_approval") {
        Ok(InboxAction::ResolveApproval)
    } else {
        Err("unsupported_inbox_action".to_owned())
    }
}

/// What marking one item read changes in the persisted queue.
#[derive(Debug, Clone, PartialEq, Eq)]
pub enum MarkReadChange {
    /// Append an acknowledgement for this notification.
    Acknowledge(String),
    /// The notification is already acknowledged: nothing changes.
    AlreadyAcknowledged,
    /// Set `read` on this persisted item.
    SetRead(usize),
}

/// Some persisted item acknowledges notification `n` as read.
pub open spec fn acknowledged(persisted: Seq<InboxItem>, n: Seq<char>) -> bool {
    exists|j: int| 0 <= j < persisted.len() && opt_view(#[trigger] persisted[j].inbox_notification_id) == Some(n)
        && persisted[j].read == Some(true)
}

/// What marking the projected `item` (whose id is `id`) read does.
pub open spec fn mark_read_outcome(item: InboxItem, persisted: Seq<InboxItem>, id: Seq<char>, r: Result<MarkReadChange, String>) -> bool {
    if pending_approval_spec(item) {
        err_is(r, "pending_approval_cannot_be_marked_read"@)
    } else if item.has_provider_choice_pending {
        err_is(r, "provider_choice_delivery_uncertain_cannot_be_marked_read"@)
    } else if item.inbox_notification_id is Some {
        let n = item.inbox_notification_id->0@;
        if acknowledged(persisted, n) {
            r == Ok::<MarkReadChange, String>(MarkReadChange::AlreadyAcknowledged)
        } else {
            r is Ok && r->Ok_0 is Acknowledge && r->Ok_0->Acknowledge_0@ == n
        }
    } else if has_item(persisted, id) {
        r is Ok && r->Ok_0 is SetRead && first_with_id(persisted, id, r->Ok_0->SetRead_0 as int)
    } else {
        err_is(r, "inbox_item_not_persisted"@)
    }
}

#[verifier::loop_isolation(false)]
/// Decides what marking `item_id` read changes: a notification gets one
/// acknowledgement; a legacy item has its own `read` set.
pub fn mark_read_change(projected: &[InboxItem], persisted: &[InboxItem], item_id: Option<&str>) -> (r: Result<MarkReadChange, String>)
    ensures
        item_id is None ==> err_is(r, "item_id_required"@),
        item_id is Some && !has_item(projected@, item_id->0@) ==> err_is(r, "inbox_item_not_found"@),
        item_id is Some ==> forall|i: int| first_with_id(projected@, item_id->0@, i)
            ==> mark_read_outcome(projected@[i], persisted@, item_id->0@, r),
{
    let id = match item_id {
        Some(id) => id,
        None => return Err("item_id_required".to_owned()),
    };
    let i = current_queue_item(projected, id)?;
    validate_remote_mark_read(&projected[i])?;
    match &projected[i].inbox_notification_id {
        Some(n) => {
            let mut j: usize = 0;
            while j < persisted.len()
                invariant
                    j <= persisted@.len(),
                    forall|k: int| 0 <= k < j ==> !(opt_view(#[trigger] persisted@[k].inbox_notification_id) == Some(n@)
                        && persisted@[k].read == Some(true)),
                decreases persisted@.len() - j,
            {
                if opt_is(&persisted[j].inbox_notification_id, n.as_str()) && persisted[j].read == Some(true) {
                    assert(opt_view(persisted@[j as int].inbox_notification_id) == Some(n@));
                    assert(acknowledged(persisted@, n@));
                    return Ok(MarkReadChange::AlreadyAcknowledged);
                }
                j = j + 1;
            }
            Ok(MarkReadChange::Acknowledge(n.clone()))
        },
        None => match current_queue_item(persisted, id) {
            Ok(k) => Ok(MarkReadChange::SetRead(k)),
            Err(_) => Err("inbox_item_not_persisted".to_owned()),
        },
    }
}

/// What marking everything read changes: `read` set on the persisted legacy
/// items without an unresolved provider choice, and one acknowledgement per
/// projected update whose notification is not yet acknowledged.
pub fn mark_all_read_changes(projected: &[InboxItem], persisted: &[InboxItem]) -> (r: (Vec<usize>, Vec<String>))
    ensures
        forall|k: int| 0 <= k < r.0@.len() ==> {
            let i = #[trigger] r.0@[k];
            i < persisted@.len() && legacy_spec(persisted@[i as int]) && !unresolved_spec(persisted@[i as int])
        },
        forall|i: int| 0 <= i < persisted@.len() && legacy_spec(persisted@[i]) && !unresolved_spec(persisted@[i])
            ==> #[trigger] r.0@.contains(i as usize),
        strings_view(r.1@) == acknowledgements_due(projected@, persisted@, projected@.len() as int),
{
    let mut set_read: Vec<usize> = Vec::new();
    let mut i: usize = 0;
    while i < persisted.len()
        invariant
            i <= persisted@.len(),
            forall|k: int| 0 <= k < set_read@.len() ==> {
                let x = #[trigger] set_read@[k];
                x < i && legacy_spec(persisted@[x as int]) && !unresolved_spec(persisted@[x as int])
            },
            forall|x: int| 0 <= x < i && legacy_spec(persisted@[x]) && !unresolved_spec(persisted@[x])
                ==> #[trigger] set_read@.contains(x as usize),
        decreases persisted@.len() - i,
    {
        if persisted[i].is_legacy_queue_item() && !persisted[i].provider_choice_acknowledgement_unresolved() {
            let ghost before = set_read@;
            set_read.push(i);
            assert forall|x: int| 0 <= x < i + 1 && legacy_spec(persisted@[x]) && !unresolved_spec(persisted@[x])
                implies #[trigger] set_read@.contains(x as usize) by {
                if x < i {
                    assert(before.contains(x as usize));
                    let k = choose|k: int| 0 <= k < before.len() && before[k] == x as usize;
                    assert(set_read@[k] == x as usize);
                } else {
                    assert(set_read@[set_read@.len() - 1] == x as usize);
                }
            }
        } else {
            assert forall|x: int| 0 <= x < i + 1 && legacy_spec(persisted@[x]) && !unresolved_spec(persisted@[x])
                implies #[trigger] set_read@.contains(x as usize) by {
                assert(x < i);
            }
        }
        i = i + 1;
    }
    let mut acks: Vec<String> = Vec::new();
    let mut p: usize = 0;
    while p < projected.len()
        invariant
            p <= projected@.len(),
            strings_view(acks@) == acknowledgements_due(projected@, persisted@, p as int),
        decreases projected@.len() - p,
    {
        let item = &projected[p];
        if opt_is(&item.item_type, "agent_update") {
            if let Some(n) = &item.inbox_notification_id {
                let mut known = false;
                let mut j: usize = 0;
                while j < persisted.len()
                    invariant
                        j <= persisted@.len(),
                        known == exists|k: int| 0 <= k < j && opt_view(#[trigger] persisted@[k].inbox_notification_id) == Some(n@)
                            && persisted@[k].read == Some(true),
                    decreases persisted@.len() - j,
                {
                    if opt_is(&persisted[j].inbox_notification_id, n.as_str()) && persisted[j].read == Some(true) {
                        known = true;
                    }
                    j = j + 1;
                }
                if !known {
                    let ghost before = acks@;
                    acks.push(n.clone());
                    assert(strings_view(acks@) =~= strings_view(before).push(n@));
                }
            }
        }
        p = p + 1;
    }
    (set_read, acks)
}

/// The acknowledgements owed for the first `p` projected items.
pub open spec fn acknowledgements_due(projected: Seq<InboxItem>, persisted: Seq<InboxItem>, p: int) -> Seq<Seq<char>>
    decreases p,
{
    if p <= 0 {
        Seq::empty()
    } else {
        let prev = acknowledgements_due(projected, persisted, p - 1);
        let item = projected[p - 1];
        if opt_view(item.item_type) == Some("agent_update"@) && item.inbox_notification_id is Some
            && !acknowledged(persisted, item.inbox_notification_id->0@) {
            prev.push(item.inbox_notification_id->0@)
        } else {
            prev
        }
    }
}

/// The persisted items clearing read items keeps: all but the read clearable completions.
pub fn clear_read_keep(persisted: &[InboxItem]) -> (r: Vec<usize>)
    ensures
        forall|k: int| 0 <= k < r@.len() ==> (#[trigger] r@[k]) < persisted@.len(),
        forall|a: int, b: int| 0 <= a < b < r@.len() ==> #[trigger] r@[a] < #[trigger] r@[b],
        forall|i: int| 0 <= i < persisted@.len() ==>
            (r@.contains(i as usize) <==> !(clearable_spec(#[trigger] persisted@[i]) && persisted@[i].read == Some(true))),
{
    let mut keep: Vec<usize> = Vec::new();
    let mut i: usize = 0;
    while i < persisted.len()
        invariant
            i <= persisted@.len(),
            forall|k: int| 0 <= k < keep@.len() ==> (#[trigger] keep@[k]) < i,
            forall|a: int, b: int| 0 <= a < b < keep@.len() ==> #[trigger] keep@[a] < #[trigger] keep@[b],
            forall|x: int| 0 <= x < i ==>
                (keep@.contains(x as usize) <==> !(clearable_spec(#[trigger] persisted@[x]) && persisted@[x].read == Some(true))),
        decreases persisted@.len() - i,
    {
        let ghost before = keep@;
        let clear = persisted[i].is_clearable_legacy_completion() && persisted[i].read == Some(true);
        if !clear {
            keep.push(i);
        }
        assert forall|x: int| 0 <= x < i + 1 implies
            (keep@.contains(x as usize) <==> !(clearable_spec(#[trigger] persisted@[x]) && persisted@[x].read == Some(true))) by {
            if x < i {
                if keep@.contains(x as usize) {
                    let k = choose|k: int| 0 <= k < keep@.len() && keep@[k] == x as usize;
                    if k == before.len() {
                        assert(keep@[k] == i);
                    } else {
                        assert(before[k] == x as usize);
                    }
                }
                if before.contains(x as usize) {
                    let k = choose|k: int| 0 <= k < before.len() && before[k] == x as usize;
                    assert(keep@[k] == x as usize);
                }
            } else {
                if !clear {
                    assert(keep@[keep@.len() - 1] == i);
                } else {
                    if keep@.contains(x as usize) {
                        let k = choose|k: int| 0 <= k < keep@.len() && keep@[k] == x as usize;
                        assert(before[k] < i);
                    }
                }
            }
        }
        i = i + 1;
    }
    keep
}

/// Dismissing removes a plain item from the persisted queue; approvals,
/// notifications and unresolved provider choices cannot be dismissed.
pub fn dismiss_keep(projected: &[InboxItem], persisted: &[InboxItem], item_id: Option<&str>) -> (r: Result<Vec<usize>, String>)
    ensures
        item_id is None ==> err_is(r, "item_id_required"@),
        item_id is Some && !has_item(projected@, item_id->0@) ==> err_is(r, "inbox_item_not_found"@),
        item_id is Some ==> forall|i: int| #[trigger] first_with_id(projected@, item_id->0@, i) ==> {
            let item = projected@[i];
            if item.automation_approval is Some || item.has_inbox_notification_id || unresolved_spec(item) {
                err_is(r, "inbox_item_not_dismissible"@)
            } else {
                r is Ok && {
                    let keep = r->Ok_0@;
                    &&& forall|k: int| 0 <= k < keep.len() ==> (#[trigger] keep[k]) < persisted@.len()
                    &&& forall|a: int, b: int| 0 <= a < b < keep.len() ==> #[trigger] keep[a] < #[trigger] keep[b]
                    &&& forall|j: int| 0 <= j < persisted@.len() ==>
                        (keep.contains(j as usize) <==> opt_view(#[trigger] persisted@[j].id) != Some(item_id->0@))
                }
            }
        },
{
    let id = match item_id {
        Some(id) => id,
        None => return Err("item_id_required".to_owned()),
    };
    let i = current_queue_item(projected, id)?;
    let item = &projected[i];
    if item.automation_approval.is_some() || item.has_inbox_notification_id || item.provider_choice_acknowledgement_unresolved() {
        return Err("inbox_item_not_dismissible".to_owned());
    }
    let mut keep: Vec<usize> = Vec::new();
    let mut j: usize = 0;
    while j < persisted.len()
        invariant
            j <= persisted@.len(),
            forall|k: int| 0 <= k < keep@.len() ==> (#[trigger] keep@[k]) < j,
            forall|a: int, b: int| 0 <= a < b < keep@.len() ==> #[trigger] keep@[a] < #[trigger] keep@[b],
            forall|x: int| 0 <= x < j ==> (keep@.contains(x as usize) <==> opt_view(#[trigger] persisted@[x].id) != Some(id@)),
        decreases persisted@.len() - j,
    {
        let ghost before = keep@;
        let drop = opt_is(&persisted[j].id, id);
        if !drop {
            keep.push(j);
        }
        assert forall|x: int| 0 <= x < j + 1 implies
            (keep@.contains(x as usize) <==> opt_view(#[trigger] persisted@[x].id) != Some(id@)) by {
            if x < j {
                if keep@.contains(x as usize) {
                    let k = choose|k: int| 0 <= k < keep@.len() && keep@[k] == x as usize;
                    if k == before.len() {
                        assert(keep@[k] == j);
                    } else {
                        assert(before[k] == x as usize);
                    }
                }
                if before.contains(x as usize) {
                    let k = choose|k: int| 0 <= k < before.len() && before[k] == x as usize;
                    assert(keep@[k] == x as usize);
                }
            } else if !drop {
                assert(keep@[keep@.len() - 1] == j);
            } else if keep@.contains(x as usize) {
                let k = choose|k: int| 0 <= k < keep@.len() && keep@[k] == x as usize;
                assert(before[k] < j);
            }
        }
        j = j + 1;
    }
    Ok(keep)
}

/// Where an approval answer goes.
#[derive(Debug, Clone, PartialEq, Eq)]
pub enum ApprovalRoute {
    /// Resolve this interaction notification with the choice.
    Notification(String),
    /// Answer this automation approval; `approve` when the choice is `Approve`.
    Automation { blueprint_id: String, run_id: String, blueprint_path: String, node: String, approve: bool },
}

/// What answering the projected `item` with `choice` does.
pub open spec fn approval_outcome(item: InboxItem, choice: Seq<char>, r: Result<ApprovalRoute, String>) -> bool {
    if !strings_view(item.approval_choices@).contains(choice) {
        err_is(r, "invalid_choice"@)
    } else if item.inbox_notification_id is Some {
        r is Ok && r->Ok_0 is Notification && r->Ok_0->Notification_0@ == item.inbox_notification_id->0@
    } else if item.automation_approval is Some {
        let a = item.automation_approval->0;
        if a.blueprint_id is None {
            err_is(r, "automation_blueprint_id_missing"@)
        } else if a.run_id is None {
            err_is(r, "automation_run_id_missing"@)
        } else if a.blueprint_path is None {
            err_is(r, "automation_blueprint_path_missing"@)
        } else if a.node is None {
            err_is(r, "automation_node_missing"@)
        } else {
            r is Ok && r->Ok_0 is Automation && {
                let route = r->Ok_0;
                &&& route->blueprint_id@ == a.blueprint_id->0@
                &&& route->run_id@ == a.run_id->0@
                &&& route->blueprint_path@ == a.blueprint_path->0@
                &&& route->node@ == a.node->0@
                &&& route->approve == (choice == "Approve"@)
            }
        }
    } else {
        err_is(r, "inbox_item_not_approval"@)
    }
}

fn required_field(value: &Option<String>, missing: &str) -> (r: Result<String, String>)
    ensures
        value is Some ==> r is Ok && r->Ok_0@ == value->0@,
        value is None ==> err_is(r, missing@),
{
    match value {
        Some(v) => Ok(v.clone()),
        None => Err(missing.to_owned()),
    }
}

/// Checks an approval answer and says where it goes.
pub fn resolve_approval_route(projected: &[InboxItem], item_id: Option<&str>, choice: Option<&str>) -> (r: Result<ApprovalRoute, String>)
    ensures
        item_id is None ==> err_is(r, "item_id_required"@),
        item_id is Some && choice is None ==> err_is(r, "choice_required"@),
        item_id is Some && choice is Some && !has_item(projected@, item_id->0@) ==> err_is(r, "inbox_item_not_found"@),
        item_id is Some && choice is Some ==> forall|i: int| #[trigger] first_with_id(projected@, item_id->0@, i)
            ==> approval_outcome(projected@[i], choice->0@, r),
{
    let id = match item_id {
        Some(id) => id,
        None => return Err("item_id_required".to_owned()),
    };
    let c = match choice {
        Some(c) => c,
        None => return Err("choice_required".to_owned()),
    };
    let i = current_queue_item(projected, id)?;
    let item = &projected[i];
    let ghost choices = strings_view(item.approval_choices@);
    let mut found = false;
    let mut k: usize = 0;
    while k < item.approval_choices.len()
        invariant
            k <= item.approval_choices@.len(),
            choices == strings_view(item.approval_choices@),
            found == exists|m: int| 0 <= m < k && choices[m] == c@,
        decreases item.approval_choices@.len() - k,
    {
        assert(choices[k as int] == item.approval_choices@[k as int]@);
        if str_eq(item.approval_choices[k].as_str(), c) {
            found = true;
        }
        k = k + 1;
    }
    if !found {
        return Err("invalid_choice".to_owned());
    }
    match &item.inbox_notification_id {
        Some(n) => Ok(ApprovalRoute::Notification(n.clone())),
        None => match &item.automation_approval {
            Some(a) => {
                let blueprint_id = required_field(&a.blueprint_id, "automation_blueprint_id_missing")?;
                let run_id = required_field(&a.run_id, "automation_run_id_missing")?;
                let blueprint_path = required_field(&a.blueprint_path, "automation_blueprint_path_missing")?;
                let node = required_field(&a.node, "automation_node_missing")?;
                Ok(ApprovalRoute::Automation { blueprint_id, run_id, blueprint_path, node, approve: str_eq(c, "Approve") })
            },
            None => Err("inbox_item_not_approval".to_owned()),
        },
    }
}

/// A request to act on an agent from a remote surface.
#[derive(Debug, Clone, PartialEq, Eq)]
pub struct RemoteAgentActionRequest {
    pub action: String,
    /// The agent the action is for.
    pub target: String,
    pub prompt: Option<String>,
    pub input_mode: Option<MessageInputMode>,
    /// The Inbox item the action answers, if any.
    pub inbox_item_id: Option<String>,
}

/// A prompt needs text and a plain or command input mode; the other actions
/// are a fixed set.
pub open spec fn agent_action_spec(action: Seq<char>, prompt: Option<Seq<char>>, mode: Option<MessageInputMode>) -> Result<(), Seq<char>> {
    if action == "send_prompt"@ {
        if prompt is None || trim_spec(prompt->0).len() == 0 {
            Err("prompt_required"@)
        } else if mode is None || mode == Some(MessageInputMode::Message) || mode == Some(MessageInputMode::Command) {
            Ok(())
        } else {
            Err("unsupported_remote_input_mode"@)
        }
    } else if action == "pause"@ || action == "resume"@ || action == "clear"@ || action == "kill"@ {
        Ok(())
    } else {
        Err("unsupported_remote_agent_action"@)
    }
}

/// Checks a remote agent action before anything is dispatched.
pub fn validate_remote_agent_action(request: &RemoteAgentActionRequest) -> (r: Result<(), String>)
    ensures
        match agent_action_spec(request.action@, opt_view(request.prompt), request.input_mode) {
            Ok(()) => r is Ok,
            Err(m) => r matches Err(e) && e@ == m,
        },
{
    if str_eq(request.action.as_str(), "send_prompt") {
        let blank = match &request.prompt {
            Some(p) => trimmed_chars(p.as_str()).len() == 0,
            None => true,
        };
        if blank {
            Err("prompt_required".to_owned())
        } else {
            match request.input_mode {
                None => Ok(()),
                Some(MessageInputMode::Message) => Ok(()),
                Some(MessageInputMode::Command) => Ok(()),
                Some(_) => Err("unsupported_remote_input_mode".to_owned()),
            }
        }
    } else if str_eq(request.action.as_str(), "pause") || str_eq(request.action.as_str(), "resume")
        || str_eq(request.action.as_str(), "clear") || str_eq(request.action.as_str(), "kill") {
        Ok(())
    } else {
        Err("unsupported_remote_agent_action".to_owned())
    }
}

/// One page of an agent's chat, newest last.
#[derive(Debug, Clone, PartialEq, Eq)]
pub struct RemoteAgentChatPage<T> {
    pub events: Vec<T>,
    pub has_older: bool,
    pub next_before: Option<usize>,
}

/// The page's bounds: it ends at `before` (or the end) and holds at most
/// `limit` events, at least one.
pub open spec fn page_bounds(len: nat, before: Option<usize>, limit: usize) -> (int, int) {
    let b = match before { Some(b) => b as int, None => len as int };
    let end = if b < len { b } else { len as int };
    let l = if limit < 1 { 1int } else { limit as int };
    let start = if end > l { end - l } else { 0 };
    (start, end)
}

/// The page of events ending at `before`, with where the next older page ends.
pub fn page_remote_agent_chat_events<T>(events: Vec<T>, before: Option<usize>, limit: usize) -> (r: RemoteAgentChatPage<T>)
    ensures
        r.events@ == events@.subrange(page_bounds(events@.len(), before, limit).0, page_bounds(events@.len(), before, limit).1),
        r.has_older == (page_bounds(events@.len(), before, limit).0 > 0),
        r.next_before == if page_bounds(events@.len(), before, limit).0 > 0 {
            Some(page_bounds(events@.len(), before, limit).0 as usize)
        } else {
            None
        },
{
    let len = events.len();
    let end = match before {
        Some(b) => if b < len { b } else { len },
        None => len,
    };
    let l = if limit < 1 { 1 } else { limit };
    let start = if end > l { end - l } else { 0 };
    let mut all = events;
    all.truncate(end);
    let page = all.split_off(start);
    RemoteAgentChatPage {
        events: page,
        has_older: start > 0,
        next_before: if start > 0 { Some(start) } else { None },
    }
}


// ---------------------------------------------------------------------------
// The projection a remote surface reads

/// An interaction notification, as the remote Inbox lists it.
#[derive(Debug, Clone, PartialEq, Eq)]
pub struct NotificationSummary {
    pub id: String,
    /// Whether it is an approval (rather than an update).
    pub is_approval: bool,
    /// Whether its status is still `awaiting_reply`.
    pub awaiting_reply: bool,
    /// Its creation time, in milliseconds.
    pub timestamp: i64,
}

/// Where one item of the remote Inbox comes from.
#[derive(Debug, Clone, Copy, PartialEq, Eq, Structural)]
pub enum QueueSource {
    /// The notification at this index, read or not.
    Notification { index: usize, read: bool },
    /// The pending automation approval at this index.
    Automation(usize),
    /// The persisted item at this index.
    Persisted(usize),
}

/// `a` is listed before `b`: newer first, ties in their original order.
pub open spec fn listed_before(keys: Seq<i64>, a: int, b: int) -> bool {
    keys[a] > keys[b] || (keys[a] == keys[b] && a < b)
}

/// `order` lists every index of `keys` once, newest first and stable.
pub open spec fn newest_first_spec(keys: Seq<i64>, order: Seq<usize>) -> bool {
    &&& order.len() == keys.len()
    &&& forall|k: int| 0 <= k < order.len() ==> (#[trigger] order[k]) < keys.len()
    &&& forall|a: int, b: int| 0 <= a < b < order.len() ==> listed_before(keys, #[trigger] order[a] as int, #[trigger] order[b] as int)
}

/// The indices of `keys`, newest first; equal keys keep their order.
pub fn newest_first(keys: &[i64]) -> (r: Vec<usize>)
    ensures
        newest_first_spec(keys@, r@),
{
    let mut out: Vec<usize> = Vec::new();
    let mut i: usize = 0;
    while i < keys.len()
        invariant
            i <= keys@.len(),
            out@.len() == i,
            forall|k: int| 0 <= k < out@.len() ==> (#[trigger] out@[k]) < i,
            forall|a: int, b: int| 0 <= a < b < out@.len() ==> listed_before(keys@, #[trigger] out@[a] as int, #[trigger] out@[b] as int),
        decreases keys@.len() - i,
    {
        let key = keys[i];
        let mut p: usize = 0;
        while p < out.len() && keys[out[p]] >= key
            invariant
                p <= out@.len(),
                out@.len() == i,
                i < keys@.len(),
                key == keys@[i as int],
                forall|k: int| 0 <= k < out@.len() ==> (#[trigger] out@[k]) < i,
                forall|q: int| 0 <= q < p ==> keys@[#[trigger] out@[q] as int] >= key,
            decreases out@.len() - p,
        {
            p = p + 1;
        }
        let ghost before = out@;
        out.insert(p, i);
        assert forall|a: int, b: int| 0 <= a < b < out@.len() implies listed_before(keys@, #[trigger] out@[a] as int, #[trigger] out@[b] as int) by {
            if b < p {
                assert(out@[a] == before[a] && out@[b] == before[b]);
            } else if b == p {
                assert(out@[a] == before[a]);
                assert(keys@[before[a] as int] >= key);
            } else if a == p {
                assert(out@[b] == before[b - 1]);
                assert(keys@[before[p as int] as int] < key);
                if b - 1 > p {
                    assert(listed_before(keys@, before[p as int] as int, before[b - 1] as int));
                }
            } else if a < p {
                assert(out@[a] == before[a] && out@[b] == before[b - 1]);
            } else {
                assert(out@[a] == before[a - 1] && out@[b] == before[b - 1]);
            }
        }
        assert forall|k: int| 0 <= k < out@.len() implies (#[trigger] out@[k]) < i + 1 by {
            if k < p {
                assert(out@[k] == before[k]);
            } else if k > p {
                assert(out@[k] == before[k - 1]);
            }
        }
        i = i + 1;
    }
    out
}

/// The queue timestamp of an RFC 3339 time, in milliseconds; a time that does
/// not parse is stamped now.
pub fn queue_timestamp(value: &str) -> (r: i64)
    ensures
        rfc3339_instant(value@) is Some && i64::MIN <= instant_millis(rfc3339_instant(value@)->0) <= i64::MAX
            ==> r == instant_millis(rfc3339_instant(value@)->0),
{
    match rfc3339_millis(value) {
        Some(millis) => millis,
        None => crate::mailbox::clock_millis(),
    }
}

/// The notifications the persisted queue records as read updates.
pub open spec fn read_update(i: InboxItem) -> bool {
    opt_view(i.item_type) == Some("agent_update"@) && i.read == Some(true) && i.inbox_notification_id is Some
}

pub open spec fn notification_read_spec(persisted: Seq<InboxItem>, n: NotificationSummary) -> bool {
    if n.is_approval {
        !n.awaiting_reply
    } else {
        exists|j: int| 0 <= j < persisted.len() && read_update(#[trigger] persisted[j])
            && persisted[j].inbox_notification_id->0@ == n.id@
    }
}

/// A persisted item the remote Inbox shows as it is.
pub open spec fn projected_legacy(i: InboxItem) -> bool {
    !i.has_inbox_notification_id && i.automation_approval is None && !i.has_dismissed
}

/// The persisted items the remote Inbox shows, in their order.
pub open spec fn legacy_indices(persisted: Seq<InboxItem>, n: int) -> Seq<usize>
    decreases n,
{
    if n <= 0 {
        Seq::empty()
    } else if projected_legacy(persisted[n - 1]) {
        legacy_indices(persisted, n - 1).push((n - 1) as usize)
    } else {
        legacy_indices(persisted, n - 1)
    }
}

/// The remote Inbox before ordering: notifications, then automation
/// approvals, then the persisted items shown as they are.
pub open spec fn queue_sources(persisted: Seq<InboxItem>, notifications: Seq<NotificationSummary>, automation_count: nat) -> Seq<QueueSource> {
    Seq::new(notifications.len(), |i: int| QueueSource::Notification { index: i as usize, read: notification_read_spec(persisted, notifications[i]) })
        + Seq::new(automation_count, |i: int| QueueSource::Automation(i as usize))
        + legacy_indices(persisted, persisted.len() as int).map_values(|k: usize| QueueSource::Persisted(k))
}

pub open spec fn source_key(persisted: Seq<InboxItem>, notifications: Seq<NotificationSummary>, automation_timestamps: Seq<i64>, s: QueueSource) -> i64 {
    match s {
        QueueSource::Notification { index, .. } => notifications[index as int].timestamp,
        QueueSource::Automation(i) => automation_timestamps[i as int],
        QueueSource::Persisted(k) => match persisted[k as int].timestamp { Some(t) => t, None => 0 },
    }
}

fn notification_read(persisted: &[InboxItem], n: &NotificationSummary) -> (r: bool)
    ensures
        r == notification_read_spec(persisted@, *n),
{
    if n.is_approval {
        return !n.awaiting_reply;
    }
    let mut j: usize = 0;
    while j < persisted.len()
        invariant
            j <= persisted@.len(),
            !n.is_approval,
            forall|k: int| 0 <= k < j ==> !(read_update(#[trigger] persisted@[k]) && persisted@[k].inbox_notification_id->0@ == n.id@),
        decreases persisted@.len() - j,
    {
        let item = &persisted[j];
        if opt_is(&item.item_type, "agent_update") && item.read == Some(true) {
            if let Some(id) = &item.inbox_notification_id {
                if str_eq(id.as_str(), n.id.as_str()) {
                    assert(read_update(persisted@[j as int]));
                    assert(persisted@[j as int].inbox_notification_id->0@ == n.id@);
                    return true;
                }
            }
        }
        j = j + 1;
    }
    false
}

/// Lists the remote Inbox: live notifications (an approval is read once
/// answered, an update once the persisted queue acknowledges it), pending
/// automation approvals, and the persisted items that are neither
/// notifications, approvals nor dismissed; newest first.
pub fn remote_queue_plan(persisted: &[InboxItem], notifications: &[NotificationSummary], automation_timestamps: &[i64]) -> (r: Vec<QueueSource>)
    ensures
        ({
            let sources = queue_sources(persisted@, notifications@, automation_timestamps@.len());
            let keys = sources.map_values(|s: QueueSource| source_key(persisted@, notifications@, automation_timestamps@, s));
            exists|order: Seq<usize>| newest_first_spec(keys, order)
                && r@ == order.map_values(|k: usize| sources[k as int])
        }),
{
    let ghost sources = queue_sources(persisted@, notifications@, automation_timestamps@.len());
    let mut all: Vec<QueueSource> = Vec::new();
    let mut keys: Vec<i64> = Vec::new();
    let mut i: usize = 0;
    while i < notifications.len()
        invariant
            i <= notifications@.len(),
            all@ == Seq::new(i as nat, |k: int| QueueSource::Notification { index: k as usize, read: notification_read_spec(persisted@, notifications@[k]) }),
            keys@ == all@.map_values(|s: QueueSource| source_key(persisted@, notifications@, automation_timestamps@, s)),
        decreases notifications@.len() - i,
    {
        let read = notification_read(persisted, &notifications[i]);
        all.push(QueueSource::Notification { index: i, read });
        keys.push(notifications[i].timestamp);
        assert(all@ =~= Seq::new((i + 1) as nat, |k: int| QueueSource::Notification { index: k as usize, read: notification_read_spec(persisted@, notifications@[k]) }));
        assert(keys@ =~= all@.map_values(|s: QueueSource| source_key(persisted@, notifications@, automation_timestamps@, s)));
        i = i + 1;
    }
    let ghost first = all@;
    let mut a: usize = 0;
    while a < automation_timestamps.len()
        invariant
            a <= automation_timestamps@.len(),
            all@ == first + Seq::new(a as nat, |k: int| QueueSource::Automation(k as usize)),
            keys@ == all@.map_values(|s: QueueSource| source_key(persisted@, notifications@, automation_timestamps@, s)),
        decreases automation_timestamps@.len() - a,
    {
        all.push(QueueSource::Automation(a));
        keys.push(automation_timestamps[a]);
        assert(all@ =~= first + Seq::new((a + 1) as nat, |k: int| QueueSource::Automation(k as usize)));
        assert(keys@ =~= all@.map_values(|s: QueueSource| source_key(persisted@, notifications@, automation_timestamps@, s)));
        a = a + 1;
    }
    let ghost second = all@;
    let mut k: usize = 0;
    while k < persisted.len()
        invariant
            k <= persisted@.len(),
            all@ == second + legacy_indices(persisted@, k as int).map_values(|x: usize| QueueSource::Persisted(x)),
            keys@ == all@.map_values(|s: QueueSource| source_key(persisted@, notifications@, automation_timestamps@, s)),
        decreases persisted@.len() - k,
    {
        let item = &persisted[k];
        if !item.has_inbox_notification_id && item.automation_approval.is_none() && !item.has_dismissed {
            all.push(QueueSource::Persisted(k));
            keys.push(match item.timestamp { Some(t) => t, None => 0 });
        }
        assert(all@ =~= second + legacy_indices(persisted@, k + 1).map_values(|x: usize| QueueSource::Persisted(x)));
        assert(keys@ =~= all@.map_values(|s: QueueSource| source_key(persisted@, notifications@, automation_timestamps@, s)));
        k = k + 1;
    }
    assert(all@ =~= sources);
    let order = newest_first(keys.as_slice());
    let mut out: Vec<QueueSource> = Vec::new();
    let mut j: usize = 0;
    while j < order.len()
        invariant
            j <= order@.len(),
            newest_first_spec(keys@, order@),
            all@.len() == keys@.len(),
            out@ == order@.take(j as int).map_values(|x: usize| all@[x as int]),
        decreases order@.len() - j,
    {
        out.push(all[order[j]]);
        assert(out@ =~= order@.take(j + 1).map_values(|x: usize| all@[x as int]));
        j = j + 1;
    }
    assert(order@.take(order@.len() as int) =~= order@);
    out
}

// ---------------------------------------------------------------------------
// Answering a provider's question from a remote surface

/// What answering a provider question needs to do next.
#[derive(Debug, Clone, Copy, PartialEq, Eq, Structural)]
pub enum ProviderChoiceStep {
    /// The same answer was already delivered: nothing to do.
    AlreadySent,
    /// Record the answer as pending on the persisted item at this index, then
    /// send it to the provider.
    Dispatch(usize),
}

/// What answering the persisted `item` with `prompt` for agent `target` does.
pub open spec fn provider_choice_outcome(item: InboxItem, target: Seq<char>, prompt: Seq<char>, index: int, r: Result<ProviderChoiceStep, String>) -> bool {
    if opt_view(item.agent_session_id) != Some(target) {
        err_is(r, "inbox_item_agent_mismatch"@)
    } else if opt_view(item.item_type) != Some("action_needed"@) {
        err_is(r, "inbox_item_not_provider_action"@)
    } else if item.provider_choice_pending is Some {
        if item.provider_choice_pending->0@ == prompt {
            err_is(r, "provider_choice_delivery_uncertain"@)
        } else {
            err_is(r, "provider_choice_already_sent"@)
        }
    } else if item.provider_choice_sent is Some {
        if item.provider_choice_sent->0@ == prompt {
            r == Ok::<ProviderChoiceStep, String>(ProviderChoiceStep::AlreadySent)
        } else {
            err_is(r, "provider_choice_already_sent"@)
        }
    } else {
        r == Ok::<ProviderChoiceStep, String>(ProviderChoiceStep::Dispatch(index as usize))
    }
}

/// Decides how a remote answer to a provider question proceeds: an answer is
/// sent at most once, and one whose delivery is uncertain is never replayed.
pub fn provider_choice_step(persisted: &[InboxItem], item_id: &str, target: &str, prompt: &str) -> (r: Result<ProviderChoiceStep, String>)
    ensures
        !has_item(persisted@, item_id@) ==> err_is(r, "inbox_item_not_found"@),
        forall|i: int| #[trigger] first_with_id(persisted@, item_id@, i)
            ==> provider_choice_outcome(persisted@[i], target@, prompt@, i, r),
{
    let i = current_queue_item(persisted, item_id)?;
    let item = &persisted[i];
    if !opt_is(&item.agent_session_id, target) {
        return Err("inbox_item_agent_mismatch".to_owned());
    }
    if !opt_is(&item.item_type, "action_needed") {
        return Err("inbox_item_not_provider_action".to_owned());
    }
    if let Some(pending) = &item.provider_choice_pending {
        return if str_eq(pending.as_str(), prompt) {
            Err("provider_choice_delivery_uncertain".to_owned())
        } else {
            Err("provider_choice_already_sent".to_owned())
        };
    }
    if let Some(sent) = &item.provider_choice_sent {
        return if str_eq(sent.as_str(), prompt) {
            Ok(ProviderChoiceStep::AlreadySent)
        } else {
            Err("provider_choice_already_sent".to_owned())
        };
    }
    Ok(ProviderChoiceStep::Dispatch(i))
}

/// What the persisted item records once the provider answered the dispatch.
#[derive(Debug, Clone, Copy, PartialEq, Eq, Structural)]
pub enum ProviderChoiceRecord {
    /// Delivered: record the answer as sent and drop the pending mark.
    MarkSent,
    /// Not delivered and safe to retry: drop the pending mark.
    ClearPending,
    /// Possibly delivered: keep the pending mark, so the answer is not replayed.
    KeepPending,
}

pub fn provider_choice_record(delivered: bool, retry_safe: bool) -> (r: ProviderChoiceRecord)
    ensures
        delivered ==> r == ProviderChoiceRecord::MarkSent,
        !delivered && retry_safe ==> r == ProviderChoiceRecord::ClearPending,
        !delivered && !retry_safe ==> r == ProviderChoiceRecord::KeepPending,
{
    if delivered {
        ProviderChoiceRecord::MarkSent
    } else if retry_safe {
        ProviderChoiceRecord::ClearPending
    } else {
        ProviderChoiceRecord::KeepPending
    }
}

/// An answer recorded as pending (its delivery uncertain) or as sent is
/// never dispatched again: asked again with the same answer, a pending one is
/// reported uncertain and a sent one as already delivered.
pub proof fn law_a_recorded_answer_is_never_replayed(item: InboxItem, target: Seq<char>, prompt: Seq<char>, index: int, r: Result<ProviderChoiceStep, String>)
    requires
        item.provider_choice_pending is Some || item.provider_choice_sent is Some,
        provider_choice_outcome(item, target, prompt, index, r),
    ensures
        !(r is Ok && r->Ok_0 is Dispatch),
        opt_view(item.agent_session_id) == Some(target) && opt_view(item.item_type) == Some("action_needed"@)
            && opt_view(item.provider_choice_pending) == Some(prompt) ==> err_is(r, "provider_choice_delivery_uncertain"@),
        opt_view(item.agent_session_id) == Some(target) && opt_view(item.item_type) == Some("action_needed"@)
            && item.provider_choice_pending is None && opt_view(item.provider_choice_sent) == Some(prompt)
            ==> r == Ok::<ProviderChoiceStep, String>(ProviderChoiceStep::AlreadySent),
{
}

} // verus!
