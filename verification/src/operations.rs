use vstd::prelude::*;
use vstd::string::{StrSliceExecFns, StringExecFns};
use crate::palette::{Swatch, ThemeColor};
use crate::strbuf::{str_eq, trim, trimmed};

verus! {

/// The part of the running configuration that the operation lifecycle
/// controls: the active operation, the logged-in operator and the open
/// collection session.
pub struct ActiveConfig {
    pub active_operation_id: Option<i64>,
    pub active_operation_name: Option<String>,
    pub active_operation_profile: Option<String>,
    pub active_operator_id: Option<i64>,
    pub active_operator_callsign: Option<String>,
    pub active_session_id: Option<i64>,
}

impl ActiveConfig {
    /// A session is open only while an operation runs and an operator is logged in.
    pub open spec fn wf(self) -> bool {
        self.active_session_id is Some ==> self.active_operation_id is Some && self.active_operator_id is Some
    }

    /// Nothing active.
    pub fn new() -> (res: Self)
        ensures
            res.wf(),
            res.active_operation_id is None,
            res.active_operation_name is None,
            res.active_operation_profile is None,
            res.active_operator_id is None,
            res.active_operator_callsign is None,
            res.active_session_id is None,
    {
        ActiveConfig {
            active_operation_id: None,
            active_operation_name: None,
            active_operation_profile: None,
            active_operator_id: None,
            active_operator_callsign: None,
            active_session_id: None,
        }
    }

    /// Marks operation `op_id` (named `name`, with profile `profile`) as the
    /// active one, once the database has recorded it as started. Returns the
    /// operator for whom a collection session is to be opened: the logged-in
    /// one, if any.
    pub fn start_operation(&mut self, op_id: i64, name: String, profile: String) -> (open_for: Option<i64>)
        requires
            old(self).wf(),
        ensures
            final(self).wf(),
            final(self).active_operation_id == Some(op_id),
            final(self).active_operation_name matches Some(n) && n@ == name@,
            final(self).active_operation_profile matches Some(p) && p@ == profile@,
            final(self).active_operator_id == old(self).active_operator_id,
            final(self).active_operator_callsign == old(self).active_operator_callsign,
            final(self).active_session_id == old(self).active_session_id,
            open_for == old(self).active_operator_id,
    {
        self.active_operation_id = Some(op_id);
        self.active_operation_name = Some(name);
        self.active_operation_profile = Some(profile);
        self.active_operator_id
    }

    /// Records the collection session the database opened.
    pub fn session_opened(&mut self, session_id: i64)
        requires
            old(self).active_operation_id is Some,
            old(self).active_operator_id is Some,
        ensures
            final(self).wf(),
            *final(self) == (ActiveConfig { active_session_id: Some(session_id), ..*old(self) }),
    {
        self.active_session_id = Some(session_id);
    }

    /// Stops the active operation: no operation and no session remain.
    /// Returns the session to close (the one open before the call).
    pub fn stop_operation(&mut self) -> (close: Option<i64>)
        requires
            old(self).wf(),
        ensures
            final(self).wf(),
            close == old(self).active_session_id,
            *final(self) == (ActiveConfig {
                active_operation_id: None,
                active_operation_name: None,
                active_operation_profile: None,
                active_session_id: None,
                ..*old(self)
            }),
    {
        let close = self.active_session_id;
        self.active_operation_id = None;
        self.active_operation_name = None;
        self.active_operation_profile = None;
        self.active_session_id = None;
        close
    }

    /// Pauses the active operation: its session closes, the operation stays.
    /// Returns the session to close.
    pub fn pause_operation(&mut self) -> (close: Option<i64>)
        requires
            old(self).wf(),
        ensures
            final(self).wf(),
            close == old(self).active_session_id,
            *final(self) == (ActiveConfig { active_session_id: None, ..*old(self) }),
    {
        let close = self.active_session_id;
        self.active_session_id = None;
        close
    }

    /// Logs in operator `opr_id` with `callsign`. Returns the operation for
    /// which a session is to be opened: the active one, when no session is open.
    pub fn set_active_operator(&mut self, opr_id: i64, callsign: String) -> (open_in: Option<i64>)
        requires
            old(self).wf(),
        ensures
            final(self).wf(),
            final(self).active_operator_id == Some(opr_id),
            final(self).active_operator_callsign matches Some(c) && c@ == callsign@,
            final(self).active_operation_id == old(self).active_operation_id,
            final(self).active_operation_name == old(self).active_operation_name,
            final(self).active_operation_profile == old(self).active_operation_profile,
            final(self).active_session_id == old(self).active_session_id,
            open_in == if old(self).active_session_id is None { old(self).active_operation_id } else { None },
    {
        self.active_operator_id = Some(opr_id);
        self.active_operator_callsign = Some(callsign);
        if self.active_session_id.is_none() {
            self.active_operation_id
        } else {
            None
        }
    }

    /// Logs the operator out: no operator and no session remain. Returns the
    /// session to close.
    pub fn clear_active_operator(&mut self) -> (close: Option<i64>)
        requires
            old(self).wf(),
        ensures
            final(self).wf(),
            close == old(self).active_session_id,
            *final(self) == (ActiveConfig {
                active_operator_id: None,
                active_operator_callsign: None,
                active_session_id: None,
                ..*old(self)
            }),
    {
        let close = self.active_session_id;
        self.active_operator_id = None;
        self.active_operator_callsign = None;
        self.active_session_id = None;
        close
    }
}

} // verus!

verus! {

/// What the operations table offers for an operation.
#[derive(Clone, Copy, Debug, PartialEq, Eq, Structural)]
pub enum OpAction {
    Start,
    Pause,
    Stop,
    Archive,
}

/// The actions offered for an operation in status `status`: start a
/// created or paused one, pause or stop an active one, archive a completed
/// one; none otherwise.
pub open spec fn op_actions_spec(status: Seq<char>) -> Seq<OpAction> {
    if status == "created"@ || status == "paused"@ {
        seq![OpAction::Start]
    } else if status == "active"@ {
        seq![OpAction::Pause, OpAction::Stop]
    } else if status == "completed"@ {
        seq![OpAction::Archive]
    } else {
        Seq::empty()
    }
}

/// The status an action records.
pub open spec fn status_after_spec(a: OpAction) -> Seq<char> {
    match a {
        OpAction::Start => "active"@,
        OpAction::Pause => "paused"@,
        OpAction::Stop => "completed"@,
        OpAction::Archive => "archived"@,
    }
}

pub fn op_actions(status: &str) -> (res: Vec<OpAction>)
    ensures
        res@ == op_actions_spec(status@),
{
    if str_eq(status, "created") || str_eq(status, "paused") {
        vec![OpAction::Start]
    } else if str_eq(status, "active") {
        vec![OpAction::Pause, OpAction::Stop]
    } else if str_eq(status, "completed") {
        vec![OpAction::Archive]
    } else {
        Vec::new()
    }
}

pub fn status_after(a: OpAction) -> (res: &'static str)
    ensures
        res@ == status_after_spec(a),
{
    match a {
        OpAction::Start => "active",
        OpAction::Pause => "paused",
        OpAction::Stop => "completed",
        OpAction::Archive => "archived",
    }
}

/// Status column of the operations table: the status in capitals with its
/// colour; an unknown status is shown as it is.
pub open spec fn op_status_label_spec(status: Seq<char>) -> (Seq<char>, Swatch) {
    if status == "active"@ {
        ("ACTIVE"@, Swatch::Theme(ThemeColor::GreenCollect))
    } else if status == "paused"@ {
        ("PAUSED"@, Swatch::Theme(ThemeColor::AmberWarning))
    } else if status == "completed"@ {
        ("COMPLETED"@, Swatch::Theme(ThemeColor::TextSecondary))
    } else if status == "archived"@ {
        ("ARCHIVED"@, Swatch::Theme(ThemeColor::TextSecondary))
    } else if status == "created"@ {
        ("CREATED"@, Swatch::Theme(ThemeColor::BluePlan))
    } else {
        (status, Swatch::Theme(ThemeColor::TextSecondary))
    }
}

pub fn op_status_label(status: &str) -> (res: (&str, Swatch))
    ensures
        (res.0@, res.1) == op_status_label_spec(status@),
{
    if str_eq(status, "active") {
        ("ACTIVE", Swatch::Theme(ThemeColor::GreenCollect))
    } else if str_eq(status, "paused") {
        ("PAUSED", Swatch::Theme(ThemeColor::AmberWarning))
    } else if str_eq(status, "completed") {
        ("COMPLETED", Swatch::Theme(ThemeColor::TextSecondary))
    } else if str_eq(status, "archived") {
        ("ARCHIVED", Swatch::Theme(ThemeColor::TextSecondary))
    } else if str_eq(status, "created") {
        ("CREATED", Swatch::Theme(ThemeColor::BluePlan))
    } else {
        (status, Swatch::Theme(ThemeColor::TextSecondary))
    }
}

/// The operation lifecycle moves forward only: every offered action changes
/// the status, none leads back to `created`, and an archived operation
/// offers nothing more.
pub proof fn law_lifecycle_moves_forward(status: Seq<char>, i: int)
    requires
        0 <= i < op_actions_spec(status).len(),
    ensures
        status_after_spec(op_actions_spec(status)[i]) != status,
        status_after_spec(op_actions_spec(status)[i]) != "created"@,
        op_actions_spec("archived"@).len() == 0,
{
    reveal_strlit("created");
    reveal_strlit("paused");
    reveal_strlit("active");
    reveal_strlit("completed");
    reveal_strlit("archived");
    assert("created"@.len() == 7 && "completed"@.len() == 9 && "archived"@.len() == 8);
    assert("active"@.len() == 6 && "paused"@.len() == 6);
    assert("active"@[0] != "paused"@[0]);
    assert("active"@ != "paused"@);
    let s = op_actions_spec(status);
    if status == "created"@ || status == "paused"@ {
        assert(s[i] == OpAction::Start);
    } else if status == "active"@ {
        assert(s[i] == OpAction::Pause || s[i] == OpAction::Stop);
    } else if status == "completed"@ {
        assert(s[i] == OpAction::Archive);
    }
}

/// What creating an operation sends: the trimmed name and description,
/// the chosen profile and the logged-in operator; nothing while the name is blank.
pub open spec fn new_operation_spec(name: Seq<char>, desc: Seq<char>) -> Option<(Seq<char>, Seq<char>)> {
    if trimmed(name).len() > 0 { Some((trimmed(name), trimmed(desc))) } else { None }
}

pub fn new_operation_request(name: &str, desc: &str, profile: &str, created_by: Option<i64>)
    -> (res: Option<(String, String, String, Option<i64>)>)
    ensures
        res is Some == new_operation_spec(name@, desc@) is Some,
        res matches Some(r) ==> (r.0@, r.1@) == new_operation_spec(name@, desc@).unwrap()
            && r.2@ == profile@ && r.3 == created_by,
{
    let n = trim(name);
    if n.unicode_len() == 0 {
        return None;
    }
    Some((String::from_str(n), String::from_str(trim(desc)), String::from_str(profile), created_by))
}

/// What creating an operator sends: the trimmed callsign, display name and
/// notes; nothing while the callsign is blank.
pub fn new_operator_request(callsign: &str, display_name: &str, notes: &str) -> (res: Option<(String, String, String)>)
    ensures
        res is Some == (trimmed(callsign@).len() > 0),
        res matches Some(r) ==> r.0@ == trimmed(callsign@) && r.1@ == trimmed(display_name@)
            && r.2@ == trimmed(notes@),
{
    let c = trim(callsign);
    if c.unicode_len() == 0 {
        return None;
    }
    Some((String::from_str(c), String::from_str(trim(display_name)), String::from_str(trim(notes))))
}

/// The create-operation form of the plan view.
pub struct OperationForm {
    pub visible: bool,
    pub name: String,
    pub desc: String,
    /// `test` or `live`.
    pub profile: String,
}

impl OperationForm {
    /// A hidden, blank form with the `test` profile.
    pub fn new() -> (res: Self)
        ensures
            !res.visible,
            res.name@ == Seq::<char>::empty(),
            res.desc@ == Seq::<char>::empty(),
            res.profile@ == "test"@,
    {
        OperationForm { visible: false, name: String::new(), desc: String::new(), profile: String::from_str("test") }
    }

    /// The `+ NEW` / `CANCEL` button: shows or hides the form, keeping what
    /// was typed.
    pub fn toggle(&mut self)
        ensures
            final(self).visible == !old(self).visible,
            final(self).name == old(self).name,
            final(self).desc == old(self).desc,
            final(self).profile == old(self).profile,
    {
        self.visible = !self.visible;
    }

    /// What `CREATE` sends (see `new_operation_request`); `None` while the
    /// name is blank, when the button is disabled.
    pub fn request(&self, created_by: Option<i64>) -> (res: Option<(String, String, String, Option<i64>)>)
        ensures
            res is Some == new_operation_spec(self.name@, self.desc@) is Some,
            res matches Some(r) ==> (r.0@, r.1@) == new_operation_spec(self.name@, self.desc@).unwrap()
                && r.2@ == self.profile@ && r.3 == created_by,
    {
        new_operation_request(self.name.as_str(), self.desc.as_str(), self.profile.as_str(), created_by)
    }

    /// The operation was created: the form is cleared, back to the `test`
    /// profile, and hidden.
    pub fn created(&mut self)
        ensures
            !final(self).visible,
            final(self).name@ == Seq::<char>::empty(),
            final(self).desc@ == Seq::<char>::empty(),
            final(self).profile@ == "test"@,
    {
        *self = OperationForm::new();
    }
}

/// The create-operator form of the plan view.
pub struct OperatorForm {
    pub visible: bool,
    pub callsign: String,
    pub display_name: String,
    pub notes: String,
}

impl OperatorForm {
    /// A hidden, blank form.
    pub fn new() -> (res: Self)
        ensures
            !res.visible,
            res.callsign@ == Seq::<char>::empty(),
            res.display_name@ == Seq::<char>::empty(),
            res.notes@ == Seq::<char>::empty(),
    {
        OperatorForm { visible: false, callsign: String::new(), display_name: String::new(), notes: String::new() }
    }

    /// The `+ NEW` / `CANCEL` button: shows or hides the form, keeping what
    /// was typed.
    pub fn toggle(&mut self)
        ensures
            final(self).visible == !old(self).visible,
            final(self).callsign == old(self).callsign,
            final(self).display_name == old(self).display_name,
            final(self).notes == old(self).notes,
    {
        self.visible = !self.visible;
    }

    /// What `CREATE` sends (see `new_operator_request`); `None` while the
    /// callsign is blank.
    pub fn request(&self) -> (res: Option<(String, String, String)>)
        ensures
            res is Some == (trimmed(self.callsign@).len() > 0),
            res matches Some(r) ==> r.0@ == trimmed(self.callsign@) && r.1@ == trimmed(self.display_name@)
                && r.2@ == trimmed(self.notes@),
    {
        new_operator_request(self.callsign.as_str(), self.display_name.as_str(), self.notes.as_str())
    }

    /// The operator was created: the form is cleared and hidden.
    pub fn created(&mut self)
        ensures
            !final(self).visible,
            final(self).callsign@ == Seq::<char>::empty(),
            final(self).display_name@ == Seq::<char>::empty(),
            final(self).notes@ == Seq::<char>::empty(),
    {
        *self = OperatorForm::new();
    }
}

/// The operators not yet assigned to the operation, by position in `all`
/// (ids of all operators, and of the assigned ones).
pub open spec fn unassigned_spec(all: Seq<i64>, assigned: Seq<i64>, n: nat) -> Seq<usize>
    decreases n,
{
    if n == 0 {
        Seq::empty()
    } else {
        let p = unassigned_spec(all, assigned, (n - 1) as nat);
        if assigned.contains(all[n - 1]) { p } else { p.push((n - 1) as usize) }
    }
}

pub fn unassigned_operators(all: &Vec<i64>, assigned: &Vec<i64>) -> (res: Vec<usize>)
    ensures
        res@ == unassigned_spec(all@, assigned@, all@.len() as nat),
{
    let mut out: Vec<usize> = Vec::new();
    let mut i: usize = 0;
    while i < all.len()
        invariant
            i <= all@.len(),
            out@ == unassigned_spec(all@, assigned@, i as nat),
        decreases all@.len() - i,
    {
        let id = all[i];
        let mut j: usize = 0;
        let mut found = false;
        while j < assigned.len()
            invariant
                j <= assigned@.len(),
                found == exists|k: int| 0 <= k < j && assigned@[k] == id,
            decreases assigned@.len() - j,
        {
            if assigned[j] == id {
                found = true;
            }
            j = j + 1;
        }
        if !found {
            out.push(i);
        }
        i = i + 1;
    }
    out
}


/// What each action leaves behind: after Start the operation can be paused
/// or stopped; a pause can be undone (Start is offered again) and differs
/// from a stop; after Stop only archiving is offered; after Archive nothing.
pub proof fn law_actions_after_each_step()
    ensures
        op_actions_spec(status_after_spec(OpAction::Start)) == seq![OpAction::Pause, OpAction::Stop],
        op_actions_spec(status_after_spec(OpAction::Pause)) == seq![OpAction::Start],
        op_actions_spec(status_after_spec(OpAction::Stop)) == seq![OpAction::Archive],
        op_actions_spec(status_after_spec(OpAction::Archive)).len() == 0,
        status_after_spec(OpAction::Pause) != status_after_spec(OpAction::Stop),
{
    reveal_strlit("created");
    reveal_strlit("paused");
    reveal_strlit("active");
    reveal_strlit("completed");
    reveal_strlit("archived");
    assert("created"@.len() == 7 && "completed"@.len() == 9 && "archived"@.len() == 8);
    assert("active"@.len() == 6 && "paused"@.len() == 6);
    assert("active"@[0] != "paused"@[0]);
    assert("active"@ != "paused"@);
}

} // verus!
