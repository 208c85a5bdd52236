use eaststar::control_panel::{
    control_panel_step, PanelAction, PanelButton, PanelKeys, SaverEntry,
};

fn no_keys() -> PanelKeys {
    PanelKeys {
        up: false,
        equal: false,
        down: false,
        minus: false,
        right: false,
        left: false,
        enter: false,
        p: false,
    }
}

#[test]
fn quiet_frame_does_nothing() {
    assert_eq!(control_panel_step(None, no_keys(), None, 180), vec![]);
    assert_eq!(control_panel_step(None, no_keys(), Some(179), 180), vec![]);
}

#[test]
fn idle_reaching_delay_enters_saver() {
    assert_eq!(
        control_panel_step(None, no_keys(), Some(180), 180),
        vec![PanelAction::EnterSaver(SaverEntry::Inactivity)]
    );
}

#[test]
fn buttons_move_delay() {
    assert_eq!(
        control_panel_step(Some(PanelButton::MinusSmall), no_keys(), None, 180),
        vec![PanelAction::AdjustDelay(-15)]
    );
    assert_eq!(
        control_panel_step(Some(PanelButton::PlusSmall), no_keys(), None, 180),
        vec![PanelAction::AdjustDelay(15)]
    );
    assert_eq!(
        control_panel_step(Some(PanelButton::MinusLarge), no_keys(), None, 180),
        vec![PanelAction::AdjustDelay(-60)]
    );
    assert_eq!(
        control_panel_step(Some(PanelButton::PlusLarge), no_keys(), None, 180),
        vec![PanelAction::AdjustDelay(60)]
    );
    assert_eq!(
        control_panel_step(Some(PanelButton::Lock), no_keys(), None, 180),
        vec![PanelAction::Lock]
    );
}

#[test]
fn preview_click_ends_the_frame() {
    let mut keys = no_keys();
    keys.up = true;
    keys.left = true;
    assert_eq!(
        control_panel_step(Some(PanelButton::Preview), keys, Some(10_000), 180),
        vec![PanelAction::EnterSaver(SaverEntry::Preview)]
    );
}

#[test]
fn keys_act_in_order_after_the_click() {
    let mut keys = no_keys();
    keys.equal = true;
    keys.minus = true;
    keys.right = true;
    keys.left = true;
    assert_eq!(
        control_panel_step(Some(PanelButton::Lock), keys, None, 180),
        vec![
            PanelAction::Lock,
            PanelAction::AdjustDelay(15),
            PanelAction::AdjustDelay(-15),
            PanelAction::AdjustDelay(60),
            PanelAction::AdjustDelay(-60),
        ]
    );
}

#[test]
fn key_preview_skips_idle_check() {
    let mut keys = no_keys();
    keys.p = true;
    assert_eq!(
        control_panel_step(None, keys, Some(10_000), 180),
        vec![PanelAction::EnterSaver(SaverEntry::Preview)]
    );
}

#[test]
fn idle_check_uses_the_adjusted_delay() {
    // 200 s idle: a delay moved from 180 to 195 is reached, one moved to 240 is not.
    assert_eq!(
        control_panel_step(Some(PanelButton::PlusSmall), no_keys(), Some(200), 180),
        vec![PanelAction::AdjustDelay(15), PanelAction::EnterSaver(SaverEntry::Inactivity)]
    );
    assert_eq!(
        control_panel_step(Some(PanelButton::PlusLarge), no_keys(), Some(200), 180),
        vec![PanelAction::AdjustDelay(60)]
    );
    // The delay is clamped at 30 s, so 30 s idle reaches it even from 30.
    let mut keys = no_keys();
    keys.down = true;
    assert_eq!(
        control_panel_step(None, keys, Some(30), 30),
        vec![PanelAction::AdjustDelay(-15), PanelAction::EnterSaver(SaverEntry::Inactivity)]
    );
}
