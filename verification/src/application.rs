//! The lock state machine: owns the password buffer, serializes password
//! entry, gates all input while a credential check is outstanding, drives
//! idle-driven visual decay through a single cancel-and-replace timer, and
//! ends permanently in `Success`.
//!
//! The machine is pure decision logic. The surrounding reactor performs
//! each returned [`Effects`] — rendering, timer arming, dispatching the
//! blocking credential check off-thread — and feeds the resulting events
//! (key presses, the one-shot check result, timer expiry) back in.

use vstd::prelude::*;

use crate::password::PasswordBuffer;

verus! {

/// Seconds of inactivity after which the indicator decays to `Idle`.
pub const IDLE_DELAY_SECS: u64 = 2;

/// The lock indicator's state. Exactly one is current at any time.
#[derive(Clone, Copy, Debug, PartialEq, Eq, Structural)]
pub enum AppState {
    /// Resting state; also the target of every idle decay.
    Idle,
    /// Characters are being typed; carries the current password length.
    Input(u32),
    /// Exactly one credential check is outstanding; all input is blocked.
    Verifying,
    /// The last check failed; the password has been cleared.
    Invalid,
    /// The check succeeded. Terminal: nothing changes the state any more.
    Success,
}

/// A discrete key event, as the input source delivers it: Escape clears,
/// Enter submits, Backspace removes one character, any other key that
/// produced a codepoint appends it.
#[derive(Clone, Copy, Debug, PartialEq, Eq, Structural)]
pub enum KeyEvent {
    Escape,
    Enter,
    Backspace,
    Char(char),
}

/// What the reactor must do to the single idle-timer slot. Arming is
/// always cancel-and-replace: at most one timer is ever pending.
#[derive(Clone, Copy, Debug, PartialEq, Eq, Structural)]
pub enum TimerCommand {
    /// Leave the pending timer (or its absence) as it is.
    Keep,
    /// Cancel any pending idle timer and arm none.
    Disarm,
    /// Cancel any pending idle timer and arm a fresh one for
    /// `IDLE_DELAY_SECS`; its target is always `Idle`.
    Rearm,
}

/// What the reactor must perform after feeding the machine one event.
#[derive(Debug, Clone, PartialEq, Eq)]
pub struct Effects {
    /// Render this state on every output, if a transition happened.
    pub render: Option<AppState>,
    /// What to do with the idle-timer slot.
    pub timer: TimerCommand,
    /// Dispatch one credential check with this password copy.
    pub auth_request: Option<Vec<char>>,
}

/// Mathematical model of [`Effects`].
#[verifier::ext_equal]
pub struct EffectsView {
    pub render: Option<AppState>,
    pub timer: TimerCommand,
    pub auth_request: Option<Seq<char>>,
}

impl View for Effects {
    type V = EffectsView;

    closed spec fn view(&self) -> EffectsView {
        EffectsView {
            render: self.render,
            timer: self.timer,
            auth_request: match self.auth_request {
                Some(v) => Some(v@),
                None => None,
            },
        }
    }
}

/// Mathematical model of the machine: current state, password text, and
/// whether an idle timer is pending.
#[verifier::ext_equal]
pub struct AppView {
    pub state: AppState,
    pub password: Seq<char>,
    pub timer_pending: bool,
}

/// One step of the machine: the state it moves to and what the reactor
/// must perform.
#[verifier::ext_equal]
pub struct Step {
    pub post: AppView,
    pub out: EffectsView,
}

/// The machine's invariant: an `Input` state reports the password's exact
/// length, `Invalid` implies the password was cleared, no idle timer is
/// ever pending while `Verifying` (nothing may decay the indicator during
/// a check) or after `Success` (terminal), and every `Input` or `Invalid`
/// state has its decay timer armed.
pub open spec fn app_wf(v: AppView) -> bool {
    &&& (v.state matches AppState::Input(n) ==> v.password.len() == n)
    &&& (v.state is Invalid ==> v.password.len() == 0)
    &&& (v.state is Verifying ==> !v.timer_pending)
    &&& (v.state is Success ==> !v.timer_pending)
    &&& ((v.state is Input || v.state is Invalid) ==> v.timer_pending)
    &&& v.password.len() <= u32::MAX
}

/// Effects of an event the machine ignores.
pub open spec fn no_effects() -> EffectsView {
    EffectsView { render: None, timer: TimerCommand::Keep, auth_request: None }
}

/// Timer behavior on entering a state: every entered state re-arms the
/// single idle timer, except `Verifying`, which suppresses it so the
/// indicator cannot decay mid-check, and `Success`, after which no timer
/// is ever armed again.
pub open spec fn timer_on_entry(s: AppState) -> TimerCommand {
    match s {
        AppState::Verifying => TimerCommand::Disarm,
        AppState::Success => TimerCommand::Disarm,
        _ => TimerCommand::Rearm,
    }
}

/// Whether a timer is pending after the reactor performs a command.
pub open spec fn pending_after(pending: bool, cmd: TimerCommand) -> bool {
    match cmd {
        TimerCommand::Keep => pending,
        TimerCommand::Disarm => false,
        TimerCommand::Rearm => true,
    }
}

/// Entering state `s` with password text `password`: the transition is
/// rendered, the timer slot follows `timer_on_entry`, and `auth` names the
/// password copy dispatched to the credential check, if any.
pub open spec fn enter_state(
    pre: AppView,
    s: AppState,
    auth: Option<Seq<char>>,
    password: Seq<char>,
) -> Step {
    Step {
        post: AppView {
            state: s,
            password,
            timer_pending: pending_after(pre.timer_pending, timer_on_entry(s)),
        },
        out: EffectsView { render: Some(s), timer: timer_on_entry(s), auth_request: auth },
    }
}

/// The machine's reaction to one key event. `Verifying` and `Success`
/// ignore every key. Escape clears the typed text; Enter snapshots the
/// password and dispatches exactly one credential check; Backspace removes
/// one character, reaching `Idle` when the last one goes and staying put
/// on an empty password; any other typed character is appended (unless its
/// count would no longer be representable, which real input never reaches).
pub open spec fn step_key(pre: AppView, k: KeyEvent) -> Step {
    if pre.state is Verifying || pre.state is Success {
        Step { post: pre, out: no_effects() }
    } else {
        match k {
            KeyEvent::Escape => enter_state(pre, AppState::Input(0), None, Seq::empty()),
            KeyEvent::Enter => enter_state(
                pre,
                AppState::Verifying,
                Some(pre.password),
                pre.password,
            ),
            KeyEvent::Backspace => {
                if pre.password.len() == 0 {
                    Step { post: pre, out: no_effects() }
                } else if pre.password.len() == 1 {
                    enter_state(pre, AppState::Idle, None, pre.password.drop_last())
                } else {
                    enter_state(
                        pre,
                        AppState::Input((pre.password.len() - 1) as u32),
                        None,
                        pre.password.drop_last(),
                    )
                }
            },
            KeyEvent::Char(c) => {
                if pre.password.len() >= u32::MAX {
                    Step { post: pre, out: no_effects() }
                } else {
                    enter_state(
                        pre,
                        AppState::Input((pre.password.len() + 1) as u32),
                        None,
                        pre.password.push(c),
                    )
                }
            },
        }
    }
}

/// The machine's reaction to the credential check's one boolean result.
/// Success is terminal; failure clears the password and shows `Invalid`,
/// which then decays to `Idle`. A result arriving in any other state than
/// `Verifying` is stale and is rejected outright.
pub open spec fn step_auth(pre: AppView, ok: bool) -> Step {
    if !(pre.state is Verifying) {
        Step { post: pre, out: no_effects() }
    } else if ok {
        enter_state(pre, AppState::Success, None, pre.password)
    } else {
        enter_state(pre, AppState::Invalid, None, Seq::empty())
    }
}

/// The machine's reaction to the idle timer firing: unconditionally back
/// to `Idle` — the timer's captured target is always `Idle`, not whatever
/// state armed it — and the fired timer is spent. A firing with no timer
/// pending is stale and changes nothing.
pub open spec fn step_timer(pre: AppView) -> Step {
    if !pre.timer_pending {
        Step { post: pre, out: no_effects() }
    } else {
        Step {
            post: AppView { state: AppState::Idle, timer_pending: false, ..pre },
            out: EffectsView {
                render: Some(AppState::Idle),
                timer: TimerCommand::Keep,
                auth_request: None,
            },
        }
    }
}

/// Every step preserves the machine's invariant, so any event sequence
/// from a fresh machine stays within it.
pub proof fn lemma_steps_preserve_wf(v: AppView, k: KeyEvent, ok: bool)
    requires
        app_wf(v),
    ensures
        app_wf(step_key(v, k).post),
        app_wf(step_auth(v, ok).post),
        app_wf(step_timer(v).post),
{
}

/// State machine idempotence: backspace on an empty password in the
/// resting state changes nothing at all — no transition, no render, no
/// timer command, and in particular no underflow of the password length.
pub proof fn lemma_backspace_empty_idle(v: AppView)
    requires
        app_wf(v),
        v.state is Idle,
        v.password.len() == 0,
    ensures
        step_key(v, KeyEvent::Backspace).post == v,
        step_key(v, KeyEvent::Backspace).out == no_effects(),
{
}

/// Serialization guarantee: while `Verifying`, no key event changes the
/// machine — the password buffer keeps its text, no render and no timer
/// command is issued, and no second credential check is dispatched — and
/// no idle timer can fire, so only the pending check's result can change
/// the state.
pub proof fn lemma_verifying_serializes(v: AppView, k: KeyEvent)
    requires
        app_wf(v),
        v.state is Verifying,
    ensures
        step_key(v, k).post == v,
        step_key(v, k).out == no_effects(),
        step_key(v, k).out.auth_request is None,
        step_timer(v).post == v,
{
}

/// Idle decay: from any state other than `Verifying` and `Success`, if no
/// further input arrives, the idle timer's expiry puts the machine in
/// `Idle` and spends the timer. The timer slot is single and every arming
/// cancels its predecessor, so the timer that fires is always the one set
/// by the latest transition; `Success` is terminal and decays to nothing.
pub proof fn lemma_idle_decay(v: AppView)
    requires
        app_wf(v),
        !(v.state is Verifying),
        !(v.state is Success),
    ensures
        (v.state is Input || v.state is Invalid) ==> v.timer_pending,
        step_timer(v).post.state is Idle,
        !step_timer(v).post.timer_pending,
        step_timer(v).post.password == v.password,
{
}

/// The single timer slot fires at most once: expiry decays the machine to
/// `Idle` and spends the timer, so a second expiry — a stale callback for
/// a timer that was already superseded or spent — changes nothing.
pub proof fn lemma_timer_fires_once(v: AppView)
    requires
        app_wf(v),
        v.timer_pending,
    ensures
        step_timer(v).post.state is Idle,
        !step_timer(v).post.timer_pending,
        step_timer(step_timer(v).post).post == step_timer(v).post,
        step_timer(step_timer(v).post).out == no_effects(),
{
}

/// Success terminality: once `Success` is reached, no key event is
/// accepted, no idle timer is pending or ever armed again, and even a
/// (stale) credential result changes nothing.
pub proof fn lemma_success_terminal(v: AppView, k: KeyEvent, ok: bool)
    requires
        app_wf(v),
        v.state is Success,
    ensures
        step_key(v, k).post == v,
        step_key(v, k).out == no_effects(),
        step_timer(v).post == v,
        step_auth(v, ok).post == v,
        step_auth(v, ok).out == no_effects(),
{
}

/// The lock state machine. All mutation goes through the event methods;
/// each returns the [`Effects`] the reactor must perform.
pub struct Application {
    state: AppState,
    password: PasswordBuffer,
    timer_pending: bool,
}

impl View for Application {
    type V = AppView;

    closed spec fn view(&self) -> AppView {
        AppView {
            state: self.state,
            password: self.password@,
            timer_pending: self.timer_pending,
        }
    }
}

impl Application {
    /// A fresh machine: resting state, empty password, no timer armed.
    pub fn new() -> (r: Application)
        ensures
            app_wf(r@),
            r@.state == AppState::Idle,
            r@.password == Seq::<char>::empty(),
            !r@.timer_pending,
    {
        Application {
            state: AppState::Idle,
            password: PasswordBuffer::create(),
            timer_pending: false,
        }
    }

    /// The state currently shown.
    pub fn current_state(&self) -> (r: AppState)
        ensures
            r == self@.state,
    {
        self.state
    }

    /// Number of characters currently typed.
    pub fn password_len(&self) -> (r: usize)
        ensures
            r == self@.password.len(),
    {
        self.password.len()
    }

    /// Whether an idle timer is pending in the reactor.
    pub fn timer_pending(&self) -> (r: bool)
        ensures
            r == self@.timer_pending,
    {
        self.timer_pending
    }

    /// Transition to `state`: record it, render it, and apply the entered
    /// state's timer behavior to the single timer slot.
    fn push_state(&mut self, state: AppState) -> (r: Effects)
        ensures
            final(self)@.state == state,
            final(self)@.password == old(self)@.password,
            final(self)@.timer_pending == pending_after(
                old(self)@.timer_pending,
                timer_on_entry(state),
            ),
            r@ == (EffectsView {
                render: Some(state),
                timer: timer_on_entry(state),
                auth_request: None,
            }),
    {
        self.state = state;
        let cmd = match state {
            AppState::Verifying => TimerCommand::Disarm,
            AppState::Success => TimerCommand::Disarm,
            _ => TimerCommand::Rearm,
        };
        self.timer_pending = match cmd {
            TimerCommand::Keep => self.timer_pending,
            TimerCommand::Disarm => false,
            TimerCommand::Rearm => true,
        };
        Effects { render: Some(state), timer: cmd, auth_request: None }
    }

    /// The effects of an ignored event.
    fn ignore(&self) -> (r: Effects)
        ensures
            r@ == no_effects(),
    {
        Effects { render: None, timer: TimerCommand::Keep, auth_request: None }
    }

    /// Whether the machine currently rejects all input: during a check
    /// (the sole guard against a second check in flight) and forever after
    /// success.
    fn input_blocked(&self) -> (r: bool)
        ensures
            r == (self@.state is Verifying || self@.state is Success),
    {
        match self.state {
            AppState::Verifying => true,
            AppState::Success => true,
            _ => false,
        }
    }

    /// Escape: clear the typed text.
    pub fn password_clear(&mut self) -> (r: Effects)
        requires
            app_wf(old(self)@),
        ensures
            app_wf(final(self)@),
            final(self)@ == step_key(old(self)@, KeyEvent::Escape).post,
            r@ == step_key(old(self)@, KeyEvent::Escape).out,
    {
        if self.input_blocked() {
            return self.ignore();
        }
        self.password.clear();
        self.push_state(AppState::Input(0))
    }

    /// A typed character: append it.
    pub fn password_push(&mut self, ch: char) -> (r: Effects)
        requires
            app_wf(old(self)@),
        ensures
            app_wf(final(self)@),
            final(self)@ == step_key(old(self)@, KeyEvent::Char(ch)).post,
            r@ == step_key(old(self)@, KeyEvent::Char(ch)).out,
    {
        if self.input_blocked() {
            return self.ignore();
        }
        if self.password.len() >= u32::MAX as usize {
            return self.ignore();
        }
        self.password.push(ch);
        let n = self.password.len();
        self.push_state(AppState::Input(n as u32))
    }

    /// Backspace: remove the last character; removing the last one rests
    /// the indicator, and an empty password stays empty — no underflow, no
    /// transition.
    pub fn password_pop(&mut self) -> (r: Effects)
        requires
            app_wf(old(self)@),
        ensures
            app_wf(final(self)@),
            final(self)@ == step_key(old(self)@, KeyEvent::Backspace).post,
            r@ == step_key(old(self)@, KeyEvent::Backspace).out,
    {
        if self.input_blocked() {
            return self.ignore();
        }
        let removed = self.password.pop();
        if !removed {
            return self.ignore();
        }
        let n = self.password.len();
        if n == 0 {
            self.push_state(AppState::Idle)
        } else {
            self.push_state(AppState::Input(n as u32))
        }
    }

    /// Enter: snapshot the password, dispatch exactly one credential
    /// check, and block all input until its result arrives.
    pub fn authenticate(&mut self) -> (r: Effects)
        requires
            app_wf(old(self)@),
        ensures
            app_wf(final(self)@),
            final(self)@ == step_key(old(self)@, KeyEvent::Enter).post,
            r@ == step_key(old(self)@, KeyEvent::Enter).out,
    {
        if self.input_blocked() {
            return self.ignore();
        }
        let snapshot = self.password.snapshot();
        let mut eff = self.push_state(AppState::Verifying);
        eff.auth_request = Some(snapshot);
        eff
    }

    /// One key event from the input source.
    pub fn handle_key(&mut self, key: KeyEvent) -> (r: Effects)
        requires
            app_wf(old(self)@),
        ensures
            app_wf(final(self)@),
            final(self)@ == step_key(old(self)@, key).post,
            r@ == step_key(old(self)@, key).out,
    {
        match key {
            KeyEvent::Escape => self.password_clear(),
            KeyEvent::Enter => self.authenticate(),
            KeyEvent::Backspace => self.password_pop(),
            KeyEvent::Char(c) => self.password_push(c),
        }
    }

    /// The credential check's single boolean result.
    pub fn on_auth_result(&mut self, ok: bool) -> (r: Effects)
        requires
            app_wf(old(self)@),
        ensures
            app_wf(final(self)@),
            final(self)@ == step_auth(old(self)@, ok).post,
            r@ == step_auth(old(self)@, ok).out,
    {
        let verifying = match self.state {
            AppState::Verifying => true,
            _ => false,
        };
        if !verifying {
            return self.ignore();
        }
        if ok {
            self.push_state(AppState::Success)
        } else {
            self.password.clear();
            self.push_state(AppState::Invalid)
        }
    }

    /// The idle timer fired: decay to `Idle`. The spent timer is not
    /// re-armed; a stale firing with no timer pending changes nothing.
    pub fn on_idle_timeout(&mut self) -> (r: Effects)
        requires
            app_wf(old(self)@),
        ensures
            app_wf(final(self)@),
            final(self)@ == step_timer(old(self)@).post,
            r@ == step_timer(old(self)@).out,
    {
        if !self.timer_pending {
            return self.ignore();
        }
        self.timer_pending = false;
        self.state = AppState::Idle;
        Effects {
            render: Some(AppState::Idle),
            timer: TimerCommand::Keep,
            auth_request: None,
        }
    }
}

} // verus!
