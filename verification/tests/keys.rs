use gangplank::keys::{first_match, Keystroke, Modifiers};

fn stroke(platform: bool, key: &str) -> Keystroke {
    Keystroke {
        modifiers: Modifiers { control: false, alt: false, shift: false, platform, function: false },
        key: key.to_string(),
    }
}

#[test]
fn shortcuts_fire_with_and_without_child_focus() {
    let bindings = vec![stroke(true, "k"), stroke(false, "escape")];
    assert_eq!(first_match(&bindings, &stroke(true, "k")), Some(0));
    assert_eq!(first_match(&bindings, &stroke(false, "x")), None);
    assert_eq!(first_match(&bindings, &stroke(false, "escape")), Some(1));
    assert!(!gangplank::keys::matches(&stroke(true, "k"), &stroke(false, "k")), "modifiers must agree");
}

