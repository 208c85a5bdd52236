//! The standalone control panel's frame step: which delay changes, lock
//! request and saver entry a frame's click, key presses and idle reading
//! call for, in the order the panel carries them out.

use vstd::prelude::*;
use crate::panel::{adjust_saver_delay, adjusted_delay_spec};
use crate::settings::clamp;
use vstd::seq_lib::lemma_concat_associative;

verus! {

/// The control panel's buttons, in the order a click is tested against them.
#[derive(Debug, Clone, Copy, PartialEq, Eq, Structural)]
pub enum PanelButton {
    MinusSmall,
    PlusSmall,
    MinusLarge,
    PlusLarge,
    Preview,
    Lock,
}

/// The keys the control panel reacts to, and whether each was pressed in
/// this frame.
#[derive(Debug, Clone, Copy, PartialEq, Eq, Structural)]
pub struct PanelKeys {
    pub up: bool,
    pub equal: bool,
    pub down: bool,
    pub minus: bool,
    pub right: bool,
    pub left: bool,
    pub enter: bool,
    pub p: bool,
}

/// Why the saver is entered.
#[derive(Debug, Clone, Copy, PartialEq, Eq, Structural)]
pub enum SaverEntry {
    Preview,
    Inactivity,
}

/// One thing the control panel does in a frame.
#[derive(Debug, Clone, Copy, PartialEq, Eq, Structural)]
pub enum PanelAction {
    /// Move the saver delay by this many seconds (and save the settings).
    AdjustDelay(i64),
    /// Ask the system to lock the session.
    Lock,
    /// Switch to the saver; nothing follows in the same frame.
    EnterSaver(SaverEntry),
}

/// The small and large steps of the delay buttons and keys, in seconds.
pub const SMALL_DELAY_STEP: i64 = 15;

pub const LARGE_DELAY_STEP: i64 = 60;

/// What a click on `button` does.
pub open spec fn click_actions(click: Option<PanelButton>) -> Seq<PanelAction> {
    match click {
        None => Seq::empty(),
        Some(button) => match button {
            PanelButton::MinusSmall => seq![PanelAction::AdjustDelay((-SMALL_DELAY_STEP) as i64)],
            PanelButton::PlusSmall => seq![PanelAction::AdjustDelay(SMALL_DELAY_STEP)],
            PanelButton::MinusLarge => seq![PanelAction::AdjustDelay((-LARGE_DELAY_STEP) as i64)],
            PanelButton::PlusLarge => seq![PanelAction::AdjustDelay(LARGE_DELAY_STEP)],
            PanelButton::Preview => seq![PanelAction::EnterSaver(SaverEntry::Preview)],
            PanelButton::Lock => seq![PanelAction::Lock],
        },
    }
}

pub open spec fn action_if(pressed: bool, action: PanelAction) -> Seq<PanelAction> {
    if pressed {
        seq![action]
    } else {
        Seq::empty()
    }
}

/// What the pressed keys do: Up or `=` and Down or `-` move the delay by the
/// small step, Right and Left by the large one, Enter or P starts a preview.
pub open spec fn key_actions(keys: PanelKeys) -> Seq<PanelAction> {
    action_if(keys.up || keys.equal, PanelAction::AdjustDelay(SMALL_DELAY_STEP)) + action_if(
        keys.down || keys.minus,
        PanelAction::AdjustDelay((-SMALL_DELAY_STEP) as i64),
    ) + action_if(keys.right, PanelAction::AdjustDelay(LARGE_DELAY_STEP)) + action_if(
        keys.left,
        PanelAction::AdjustDelay((-LARGE_DELAY_STEP) as i64),
    ) + action_if(keys.enter || keys.p, PanelAction::EnterSaver(SaverEntry::Preview))
}

/// The saver delay after the delay moves among `actions`, in order.
pub open spec fn delay_after(delay_seconds: u64, actions: Seq<PanelAction>) -> u64
    decreases actions.len(),
{
    if actions.len() == 0 {
        delay_seconds
    } else {
        let before = delay_after(delay_seconds, actions.drop_last());
        match actions.last() {
            PanelAction::AdjustDelay(delta) => adjusted_delay_spec(before, delta),
            _ => before,
        }
    }
}

/// A frame of the control panel: a click on Preview starts a preview and
/// nothing else happens; otherwise the click's action, then the keys'
/// actions, and, unless a key started a preview, the saver is entered for
/// inactivity when the idle time has reached the delay as those actions
/// left it.
pub open spec fn control_panel_actions(
    click: Option<PanelButton>,
    keys: PanelKeys,
    idle_seconds: Option<u64>,
    delay_seconds: u64,
) -> Seq<PanelAction> {
    if click == Some(PanelButton::Preview) {
        seq![PanelAction::EnterSaver(SaverEntry::Preview)]
    } else {
        let handled = click_actions(click) + key_actions(keys);
        if keys.enter || keys.p {
            handled
        } else {
            match idle_seconds {
                Some(idle) => if idle >= delay_after(delay_seconds, handled) {
                    handled.push(PanelAction::EnterSaver(SaverEntry::Inactivity))
                } else {
                    handled
                },
                None => handled,
            }
        }
    }
}

/// The action of a click on `button`, for a button other than Preview too.
fn click_action(button: PanelButton) -> (action: PanelAction)
    ensures
        click_actions(Some(button)) == seq![action],
{
    match button {
        PanelButton::MinusSmall => PanelAction::AdjustDelay(-SMALL_DELAY_STEP),
        PanelButton::PlusSmall => PanelAction::AdjustDelay(SMALL_DELAY_STEP),
        PanelButton::MinusLarge => PanelAction::AdjustDelay(-LARGE_DELAY_STEP),
        PanelButton::PlusLarge => PanelAction::AdjustDelay(LARGE_DELAY_STEP),
        PanelButton::Preview => PanelAction::EnterSaver(SaverEntry::Preview),
        PanelButton::Lock => PanelAction::Lock,
    }
}

/// Appends `action` when `pressed`, and moves `delay` along with it.
fn record_if(
    actions: &mut Vec<PanelAction>,
    delay: u64,
    pressed: bool,
    action: PanelAction,
    Ghost(start): Ghost<u64>,
) -> (next: u64)
    requires
        delay == delay_after(start, old(actions)@),
    ensures
        final(actions)@ == old(actions)@ + action_if(pressed, action),
        next == delay_after(start, final(actions)@),
{
    if !pressed {
        assert(actions@ =~= actions@ + action_if(pressed, action));
        return delay;
    }
    actions.push(action);
    assert(actions@.drop_last() =~= old(actions)@);
    assert(actions@ =~= old(actions)@ + action_if(pressed, action));
    match action {
        PanelAction::AdjustDelay(delta) => adjust_saver_delay(delay, delta),
        _ => delay,
    }
}

/// The actions for one frame of the control panel, given the button that was
/// clicked (if any), the keys pressed, the idle time (if known) and the
/// current saver delay.
pub fn control_panel_step(
    click: Option<PanelButton>,
    keys: PanelKeys,
    idle_seconds: Option<u64>,
    delay_seconds: u64,
) -> (actions: Vec<PanelAction>)
    ensures
        actions@ == control_panel_actions(click, keys, idle_seconds, delay_seconds),
{
    let mut actions: Vec<PanelAction> = Vec::new();
    let mut delay = delay_seconds;
    let start = Ghost(delay_seconds);
    match click {
        Some(PanelButton::Preview) => {
            actions.push(PanelAction::EnterSaver(SaverEntry::Preview));
            assert(actions@ =~= seq![PanelAction::EnterSaver(SaverEntry::Preview)]);
            return actions;
        },
        Some(button) => {
            delay = record_if(&mut actions, delay, true, click_action(button), start);
        },
        None => {},
    }
    assert(actions@ =~= click_actions(click));
    let ghost c = actions@;
    delay = record_if(
        &mut actions,
        delay,
        keys.up || keys.equal,
        PanelAction::AdjustDelay(SMALL_DELAY_STEP),
        start,
    );
    delay = record_if(
        &mut actions,
        delay,
        keys.down || keys.minus,
        PanelAction::AdjustDelay(-SMALL_DELAY_STEP),
        start,
    );
    delay = record_if(
        &mut actions,
        delay,
        keys.right,
        PanelAction::AdjustDelay(LARGE_DELAY_STEP),
        start,
    );
    delay = record_if(
        &mut actions,
        delay,
        keys.left,
        PanelAction::AdjustDelay(-LARGE_DELAY_STEP),
        start,
    );
    let preview = keys.enter || keys.p;
    delay = record_if(
        &mut actions,
        delay,
        preview,
        PanelAction::EnterSaver(SaverEntry::Preview),
        start,
    );
    proof {
        let k1 = action_if(keys.up || keys.equal, PanelAction::AdjustDelay(SMALL_DELAY_STEP));
        let k2 = action_if(
            keys.down || keys.minus,
            PanelAction::AdjustDelay((-SMALL_DELAY_STEP) as i64),
        );
        let k3 = action_if(keys.right, PanelAction::AdjustDelay(LARGE_DELAY_STEP));
        let k4 = action_if(keys.left, PanelAction::AdjustDelay((-LARGE_DELAY_STEP) as i64));
        let k5 = action_if(preview, PanelAction::EnterSaver(SaverEntry::Preview));
        assert(actions@ == c + k1 + k2 + k3 + k4 + k5);
        assert(key_actions(keys) == k1 + k2 + k3 + k4 + k5);
        lemma_concat_associative(c, k1 + k2 + k3 + k4, k5);
        lemma_concat_associative(c, k1 + k2 + k3, k4);
        lemma_concat_associative(c, k1 + k2, k3);
        lemma_concat_associative(c, k1, k2);
        assert(actions@ == click_actions(click) + key_actions(keys));
    }
    if preview {
        return actions;
    }
    if let Some(idle) = idle_seconds {
        if idle >= delay {
            actions.push(PanelAction::EnterSaver(SaverEntry::Inactivity));
        }
    }
    actions
}

proof fn lemma_concat_contains(a: Seq<PanelAction>, b: Seq<PanelAction>, x: PanelAction)
    ensures
        (a + b).contains(x) <==> a.contains(x) || b.contains(x),
{
    if a.contains(x) {
        let k = choose|k: int| 0 <= k < a.len() && a[k] == x;
        assert((a + b)[k] == x);
    }
    if b.contains(x) {
        let k = choose|k: int| 0 <= k < b.len() && b[k] == x;
        assert((a + b)[a.len() + k] == x);
    }
    if (a + b).contains(x) {
        let k = choose|k: int| 0 <= k < (a + b).len() && (a + b)[k] == x;
        if k < a.len() {
            assert(a[k] == x);
        } else {
            assert(b[k - a.len()] == x);
        }
    }
}

proof fn lemma_action_if_contains(pressed: bool, action: PanelAction, x: PanelAction)
    ensures
        action_if(pressed, action).contains(x) <==> pressed && x == action,
{
    if pressed {
        assert(action_if(pressed, action)[0] == action);
    }
}

proof fn lemma_key_actions_contains(keys: PanelKeys, x: PanelAction)
    ensures
        key_actions(keys).contains(x) <==> {
            ||| (keys.up || keys.equal) && x == PanelAction::AdjustDelay(15)
            ||| (keys.down || keys.minus) && x == PanelAction::AdjustDelay(-15i64)
            ||| keys.right && x == PanelAction::AdjustDelay(60)
            ||| keys.left && x == PanelAction::AdjustDelay(-60i64)
            ||| (keys.enter || keys.p) && x == PanelAction::EnterSaver(SaverEntry::Preview)
        },
{
    let k1 = action_if(keys.up || keys.equal, PanelAction::AdjustDelay(SMALL_DELAY_STEP));
    let k2 = action_if(keys.down || keys.minus, PanelAction::AdjustDelay((-SMALL_DELAY_STEP) as i64));
    let k3 = action_if(keys.right, PanelAction::AdjustDelay(LARGE_DELAY_STEP));
    let k4 = action_if(keys.left, PanelAction::AdjustDelay((-LARGE_DELAY_STEP) as i64));
    let k5 = action_if(keys.enter || keys.p, PanelAction::EnterSaver(SaverEntry::Preview));
    lemma_concat_contains(k1 + k2 + k3 + k4, k5, x);
    lemma_concat_contains(k1 + k2 + k3, k4, x);
    lemma_concat_contains(k1 + k2, k3, x);
    lemma_concat_contains(k1, k2, x);
    lemma_action_if_contains(keys.up || keys.equal, PanelAction::AdjustDelay(SMALL_DELAY_STEP), x);
    lemma_action_if_contains(keys.down || keys.minus, PanelAction::AdjustDelay((-SMALL_DELAY_STEP) as i64), x);
    lemma_action_if_contains(keys.right, PanelAction::AdjustDelay(LARGE_DELAY_STEP), x);
    lemma_action_if_contains(keys.left, PanelAction::AdjustDelay((-LARGE_DELAY_STEP) as i64), x);
    lemma_action_if_contains(keys.enter || keys.p, PanelAction::EnterSaver(SaverEntry::Preview), x);
}

/// In a frame without a click, each delay key moves the delay: Up and `=`
/// raise it by 15 s, Down and `-` lower it by 15 s, Right raises it by a
/// minute and Left lowers it by a minute; Enter and P start a preview; and
/// nothing else moves the delay, starts a preview or asks for a lock.
pub proof fn lemma_keys_act(keys: PanelKeys, idle_seconds: Option<u64>, delay_seconds: u64)
    ensures
        ({
            let acts = control_panel_actions(None, keys, idle_seconds, delay_seconds);
            &&& acts.contains(PanelAction::AdjustDelay(15)) <==> keys.up || keys.equal
            &&& acts.contains(PanelAction::AdjustDelay(-15i64)) <==> keys.down || keys.minus
            &&& acts.contains(PanelAction::AdjustDelay(60)) <==> keys.right
            &&& acts.contains(PanelAction::AdjustDelay(-60i64)) <==> keys.left
            &&& acts.contains(PanelAction::EnterSaver(SaverEntry::Preview)) <==> keys.enter
                || keys.p
            &&& !acts.contains(PanelAction::Lock)
            &&& forall|d: i64|
                #![trigger acts.contains(PanelAction::AdjustDelay(d))]
                acts.contains(PanelAction::AdjustDelay(d)) ==> d == 15 || d == -15 || d == 60
                    || d == -60
        }),
{
    let handled = click_actions(None) + key_actions(keys);
    assert(handled =~= key_actions(keys));
    let acts = control_panel_actions(None, keys, idle_seconds, delay_seconds);
    let inactive = PanelAction::EnterSaver(SaverEntry::Inactivity);
    assert forall|x: PanelAction| x != inactive implies (acts.contains(x) <==> key_actions(
        keys,
    ).contains(x)) by {
        lemma_key_actions_contains(keys, x);
        if acts != handled {
            assert(acts == handled.push(inactive));
            lemma_concat_contains(handled, seq![inactive], x);
            assert(handled.push(inactive) =~= handled + seq![inactive]);
            if seq![inactive].contains(x) {
                let k = choose|k: int| 0 <= k < 1 && seq![inactive][k] == x;
            }
        }
    }
    lemma_key_actions_contains(keys, PanelAction::AdjustDelay(15));
    lemma_key_actions_contains(keys, PanelAction::AdjustDelay(-15i64));
    lemma_key_actions_contains(keys, PanelAction::AdjustDelay(60));
    lemma_key_actions_contains(keys, PanelAction::AdjustDelay(-60i64));
    lemma_key_actions_contains(keys, PanelAction::EnterSaver(SaverEntry::Preview));
    lemma_key_actions_contains(keys, PanelAction::Lock);
    assert forall|d: i64|
        #![trigger acts.contains(PanelAction::AdjustDelay(d))]
        acts.contains(PanelAction::AdjustDelay(d)) implies d == 15 || d == -15 || d == 60 || d
        == -60 by {
        lemma_key_actions_contains(keys, PanelAction::AdjustDelay(d));
    }
}

/// A click acts before any key: the delay buttons move the delay by 15 s or
/// a minute, the lock button asks for a lock, and a click on Preview starts
/// a preview and ends the frame.
pub proof fn lemma_click_acts_first(
    click: PanelButton,
    keys: PanelKeys,
    idle_seconds: Option<u64>,
    delay_seconds: u64,
)
    ensures
        ({
            let acts = control_panel_actions(Some(click), keys, idle_seconds, delay_seconds);
            &&& acts.len() > 0
            &&& click == PanelButton::MinusSmall ==> acts[0] == PanelAction::AdjustDelay(-15i64)
            &&& click == PanelButton::PlusSmall ==> acts[0] == PanelAction::AdjustDelay(15)
            &&& click == PanelButton::MinusLarge ==> acts[0] == PanelAction::AdjustDelay(-60i64)
            &&& click == PanelButton::PlusLarge ==> acts[0] == PanelAction::AdjustDelay(60)
            &&& click == PanelButton::Lock ==> acts[0] == PanelAction::Lock
            &&& click == PanelButton::Preview ==> acts == seq![
                PanelAction::EnterSaver(SaverEntry::Preview),
            ]
        }),
{
    let handled = click_actions(Some(click)) + key_actions(keys);
    if click != PanelButton::Preview {
        assert(handled[0] == click_actions(Some(click))[0]);
        assert(handled.push(PanelAction::EnterSaver(SaverEntry::Inactivity))[0] == handled[0]);
    }
}

/// A frame with no click and no key pressed enters the saver for inactivity
/// exactly when the idle time is known and has reached the delay, and does
/// nothing else.
pub proof fn lemma_quiet_frame(idle_seconds: Option<u64>, delay_seconds: u64)
    ensures
        ({
            let keys = PanelKeys {
                up: false,
                equal: false,
                down: false,
                minus: false,
                right: false,
                left: false,
                enter: false,
                p: false,
            };
            control_panel_actions(None, keys, idle_seconds, delay_seconds) == if idle_seconds
                matches Some(idle) && idle >= delay_seconds {
                seq![PanelAction::EnterSaver(SaverEntry::Inactivity)]
            } else {
                Seq::<PanelAction>::empty()
            }
        }),
{
    let keys = PanelKeys {
        up: false,
        equal: false,
        down: false,
        minus: false,
        right: false,
        left: false,
        enter: false,
        p: false,
    };
    let handled = click_actions(None) + key_actions(keys);
    assert(handled =~= Seq::<PanelAction>::empty());
    assert(delay_after(delay_seconds, handled) == delay_seconds);
    assert(handled.push(PanelAction::EnterSaver(SaverEntry::Inactivity)) =~= seq![
        PanelAction::EnterSaver(SaverEntry::Inactivity),
    ]);
}

/// The idle check of a frame uses the delay as that frame's moves left it:
/// after a click that raises the delay by 15 s, with no key pressed, the
/// saver is entered exactly when the idle time has reached the raised delay,
/// clamped to the allowed range.
pub proof fn lemma_idle_check_after_move(idle: u64, delay_seconds: u64)
    ensures
        ({
            let keys = PanelKeys {
                up: false,
                equal: false,
                down: false,
                minus: false,
                right: false,
                left: false,
                enter: false,
                p: false,
            };
            let raised = clamp(
                if delay_seconds + 15 > u64::MAX {
                    u64::MAX
                } else {
                    (delay_seconds + 15) as u64
                },
                30,
                3600,
            );
            control_panel_actions(Some(PanelButton::PlusSmall), keys, Some(idle), delay_seconds)
                == if idle >= raised {
                seq![
                    PanelAction::AdjustDelay(15),
                    PanelAction::EnterSaver(SaverEntry::Inactivity),
                ]
            } else {
                seq![PanelAction::AdjustDelay(15)]
            }
        }),
{
    let keys = PanelKeys {
        up: false,
        equal: false,
        down: false,
        minus: false,
        right: false,
        left: false,
        enter: false,
        p: false,
    };
    let handled = click_actions(Some(PanelButton::PlusSmall)) + key_actions(keys);
    assert(handled =~= seq![PanelAction::AdjustDelay(15)]);
    assert(handled.drop_last() =~= Seq::<PanelAction>::empty());
    assert(handled.last() == PanelAction::AdjustDelay(15));
    assert(delay_after(delay_seconds, handled.drop_last()) == delay_seconds);
    assert(delay_after(delay_seconds, handled) == adjusted_delay_spec(delay_seconds, 15));
    assert(handled.push(PanelAction::EnterSaver(SaverEntry::Inactivity)) =~= seq![
        PanelAction::AdjustDelay(15),
        PanelAction::EnterSaver(SaverEntry::Inactivity),
    ]);
}

} // verus!
