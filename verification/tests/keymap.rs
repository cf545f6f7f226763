use starfold_ui::keymap::{
    alternatives_of, bindings, filter_eats, g_prefix, global_bindings, groups, is_text_key, module_bindings, modules,
    module, module_name,
    mouse, parse, resolve, scope_of, shadows, Action, Binding, Module, Scope,
};
use starfold_ui::keys::{Key, KeyCode, Mods};

fn plain(c: char) -> Key {
    Key::plain(KeyCode::Char(c))
}

fn code(c: KeyCode) -> Key {
    Key::plain(c)
}

fn with(c: KeyCode, mods: Mods) -> Key {
    Key::new(c, mods)
}

/// `g<char>`: the second key of a chord, if that is what the spelling is.
fn chord_char(alt: &[char]) -> Option<char> {
    if alt.len() == 2 && alt[0] == 'g' {
        Some(alt[1])
    } else {
        None
    }
}

fn specs(b: &Binding) -> Vec<Key> {
    alternatives_of(b.keys).iter().filter_map(|a| parse(a)).collect()
}

#[test]
fn every_group_in_the_table_declares_its_scope() {
    let groups = groups();
    for b in bindings() {
        assert!(
            groups.iter().any(|(name, _)| *name == b.group),
            "the group {:?} is in the table and not in GROUPS",
            b.group
        );
    }
}

#[test]
fn every_binding_group_is_listed_once() {
    let mut seen: Vec<&str> = Vec::new();
    let mut last = "";
    for b in bindings() {
        if b.group != last {
            assert!(!seen.contains(&b.group), "{} appears in two places in the table", b.group);
            seen.push(b.group);
            last = b.group;
        }
    }
}

#[test]
fn nothing_in_the_table_overruns_its_column() {
    for b in bindings() {
        assert!(b.keys.chars().count() <= 13, "{:?} leaves no gap before {:?}", b.keys, b.label);
        assert!(b.label.chars().count() <= 19, "{:?} would wrap", b.label);
    }
    for m in mouse() {
        assert!(m.gesture.chars().count() <= 19, "{:?}", m.gesture);
        assert!(m.label.chars().count() <= 19, "{:?} would wrap", m.label);
    }
}

#[test]
fn every_binding_reaches_its_action() {
    for b in bindings() {
        let mut reachable = false;
        for alt in alternatives_of(b.keys) {
            if let Some(c) = chord_char(&alt) {
                assert_eq!(
                    g_prefix(plain(c)),
                    Some(b.action),
                    "{:?} ({:?}) is a chord and g_prefix does not dispatch it",
                    b.keys,
                    b.action
                );
                reachable = true;
                continue;
            }
            let Some(k) = parse(&alt) else {
                continue;
            };
            let hit = match scope_of(b.group) {
                Scope::Global => resolve(k) == Some(b.action),
                Scope::Modules(list) => list.iter().any(|&m| module(m, k) == Some(b.action)),
            };
            reachable |= hit;
        }
        assert!(reachable, "{:?} ({:?}) is in the help and dispatches to nothing", b.keys, b.action);
    }
}

#[test]
fn shift_is_the_big_step() {
    assert_eq!(resolve(code(KeyCode::Up)), Some(Action::CursorUp));
    assert_eq!(resolve(with(KeyCode::Up, Mods::shift())), Some(Action::CursorUpBig));
    assert_eq!(resolve(with(KeyCode::Down, Mods::shift())), Some(Action::CursorDownBig));
}

#[test]
fn hjkl_only_ever_moves() {
    for m in modules() {
        for c in ['j', 'k'] {
            assert_eq!(module(m, plain(c)), None, "{m:?} claims {c:?}");
        }
        for c in ['h', 'l'] {
            let got = module(m, plain(c));
            assert!(
                matches!(got, None | Some(Action::Enter) | Some(Action::Pop)),
                "{m:?} binds {c:?} to {got:?}, which is not a movement"
            );
        }
    }
    assert_eq!(resolve(plain('j')), Some(Action::CursorDown));
    assert_eq!(resolve(plain('k')), Some(Action::CursorUp));
}

#[test]
fn esc_never_quits() {
    assert_ne!(resolve(code(KeyCode::Esc)), Some(Action::Quit));
    for m in modules() {
        assert_ne!(module(m, code(KeyCode::Esc)), Some(Action::Quit), "{m:?}");
    }
    for b in bindings() {
        if b.action == Action::Quit {
            assert!(!b.keys.contains("esc"), "{:?}", b.keys);
        }
    }
}

#[test]
fn every_alt_binding_survives_the_filter() {
    for b in bindings() {
        if scope_of(b.group) != Scope::Global {
            continue;
        }
        for s in specs(&b) {
            if !s.mods.alt {
                continue;
            }
            assert!(
                !filter_eats(s),
                "the filter eats {:?}, so {:?} cannot be reached while typing",
                b.keys,
                b.action
            );
            assert_eq!(resolve(s), Some(b.action));
        }
    }
}

#[test]
fn no_module_has_a_key_twice() {
    for m in modules() {
        let mut seen: Vec<(Key, Action)> = Vec::new();
        for b in &module_bindings(m) {
            for s in specs(b) {
                if let Some((_, other)) = seen.iter().find(|(k, _)| *k == s) {
                    assert_eq!(*other, b.action, "{m:?} binds {s:?} to two different actions");
                }
                seen.push((s, b.action));
            }
        }
    }
}

#[test]
fn no_global_key_means_two_things() {
    let mut seen: Vec<(Key, Action)> = Vec::new();
    for b in global_bindings() {
        for s in specs(&b) {
            if let Some((_, other)) = seen.iter().find(|(k, _)| *k == s) {
                panic!("{s:?} is both {other:?} and {:?}", b.action);
            }
            seen.push((s, b.action));
        }
    }
}

#[test]
fn the_g_prefix_reaches_home_and_the_two_go_actions() {
    assert_eq!(g_prefix(plain('g')), Some(Action::Home));
    assert_eq!(g_prefix(plain('h')), Some(Action::GoHome));
    assert_eq!(g_prefix(plain('r')), Some(Action::GoRoot));
    assert_eq!(g_prefix(plain('x')), None, "a mistake reaches nothing");
}

#[test]
fn the_g_prefix_ignores_ctrl_and_alt() {
    assert_eq!(g_prefix(with(KeyCode::Char('h'), Mods::ctrl())), None);
    assert_eq!(g_prefix(with(KeyCode::Char('r'), Mods::alt())), None);
}

#[test]
fn g_on_its_own_resolves_to_nothing() {
    assert_eq!(resolve(plain('g')), None);
    for m in modules() {
        assert_eq!(module(m, plain('g')), None, "{m:?}");
    }
}

#[test]
fn chord_spellings_do_not_shadow_their_own_letters() {
    assert_eq!(module(Module::Stack, plain('h')), Some(Action::Pop));
    assert_eq!(module(Module::Stack, plain('r')), Some(Action::Rename));
}

#[test]
fn plain_letters_are_typing_in_the_filter_and_esc_and_enter_are_not() {
    for c in ('a'..='z').chain('A'..='Z').chain('0'..='9') {
        assert!(filter_eats(plain(c)), "{c:?} should be typed, not dispatched");
    }
    assert!(!filter_eats(code(KeyCode::Esc)));
    assert!(!filter_eats(code(KeyCode::Enter)));
}

#[test]
fn the_filter_does_not_eat_question_mark() {
    assert!(!filter_eats(plain('?')));
    assert_eq!(resolve(plain('?')), Some(Action::Help));
}

#[test]
fn the_filter_does_not_eat_the_navigation_and_redraw_keys() {
    for k in [
        code(KeyCode::Up),
        code(KeyCode::Down),
        code(KeyCode::PageUp),
        code(KeyCode::PageDown),
        code(KeyCode::Tab),
        code(KeyCode::BackTab),
        with(KeyCode::Char('l'), Mods::ctrl()),
    ] {
        assert!(!filter_eats(k), "{k:?} should fall through the filter");
    }
}

#[test]
fn a_shifted_letter_is_still_typing() {
    assert!(is_text_key(with(KeyCode::Char('A'), Mods::shift())));
    assert!(!is_text_key(with(KeyCode::Char('a'), Mods::ctrl())));
}

#[test]
fn quitting_and_help_work_from_every_module() {
    for m in modules() {
        for (k, want) in [
            (plain('q'), Action::Quit),
            (plain('?'), Action::Help),
            (with(KeyCode::Char('c'), Mods::ctrl()), Action::Quit),
        ] {
            let got = module(m, k).or_else(|| resolve(k));
            assert_eq!(got, Some(want), "{m:?} + {k:?}");
        }
    }
}

#[test]
fn a_module_declines_what_it_does_not_want() {
    for m in modules() {
        for c in ['q', 't', 'T', '/'] {
            assert_eq!(module(m, plain(c)), None, "{m:?} swallowed {c:?}, which is global");
        }
    }
}

#[test]
fn the_preview_module_only_claims_its_close_mnemonic() {
    assert!(
        module_bindings(Module::Preview)
            .iter()
            .all(|b| b.action == Action::TogglePreview && b.keys == "c"),
        "preview should only add its focused close mnemonic"
    );
    assert_eq!(module(Module::Preview, plain('c')), Some(Action::TogglePreview));
}

#[test]
fn header_aliases_keep_existing_keys_and_panel_scopes() {
    for (new, old, action) in [
        ('n', '.', Action::ToggleHidden),
        ('f', '/', Action::Filter),
        ('e', 'b', Action::Places),
    ] {
        assert_eq!(resolve(plain(new)), Some(action));
        assert_eq!(resolve(plain(old)), Some(action));
        assert!(filter_eats(plain(new)), "{new} must type into a filter");
    }
    assert_eq!(resolve(plain('B')), Some(Action::Bookmark));
    assert_eq!(resolve(plain('s')), Some(Action::NextSortKey));
    assert_eq!(resolve(plain('S')), Some(Action::ReverseSort));
    assert_eq!(resolve(plain('v')), Some(Action::ToggleView));

    assert_eq!(module(Module::Stack, plain('h')), Some(Action::Pop));
    assert_eq!(module(Module::Stack, plain('r')), Some(Action::Rename));
    assert_eq!(module(Module::Operations, plain('r')), Some(Action::RunOp));
    assert_eq!(module(Module::Operations, plain('c')), Some(Action::ClearQueue));
    assert_eq!(module(Module::Preview, plain('c')), Some(Action::TogglePreview));
    assert_eq!(module(Module::Stack, plain('c')), Some(Action::FileActions));
    assert!(filter_eats(plain('c')), "c must type into a filter");
    assert_eq!(resolve(plain('c')), None);
    assert_eq!(resolve(plain('r')), None);
}

#[test]
fn no_module_key_shadows_a_global_one_except_the_documented_shadows() {
    let shadows = shadows();
    for m in modules() {
        for b in module_bindings(m) {
            for k in specs(&b) {
                let Some(global_action) = resolve(k) else {
                    continue;
                };
                let documented = shadows.iter().any(|sh| {
                    sh.module == m && sh.module_action == b.action && sh.global_action == global_action
                });
                assert!(
                    documented,
                    "{m:?} binds {k:?} to {:?}, shadowing the global {global_action:?}, and this is not in SHADOWS",
                    b.action
                );
            }
        }
    }
    for sh in &shadows {
        let spelled: Vec<char> = sh.keys.chars().collect();
        let k = parse(&spelled).unwrap_or_else(|| panic!("{sh:?} does not parse"));
        assert_eq!(module(sh.module, k), Some(sh.module_action), "{sh:?}");
        assert_eq!(resolve(k), Some(sh.global_action), "{sh:?}");
        assert!(!sh.reason.is_empty(), "{sh:?} has no reason");
    }
}

#[test]
fn spellings_parse_to_their_keys() {
    let p = |s: &str| parse(&s.chars().collect::<Vec<char>>());
    assert_eq!(p("ctrl+c"), Some(with(KeyCode::Char('c'), Mods::ctrl())));
    assert_eq!(p("shift+tab"), Some(with(KeyCode::BackTab, Mods::shift())));
    assert_eq!(p("pgdn"), Some(code(KeyCode::PageDown)));
    assert_eq!(p("F12"), Some(code(KeyCode::F(12))));
    assert_eq!(p("nonsense"), None);
    let alts: Vec<String> = alternatives_of("j, down").into_iter().map(|a| a.into_iter().collect()).collect();
    assert_eq!(alts, vec!["j".to_string(), "down".to_string()]);
    let slashed: Vec<String> = alternatives_of("n/.").into_iter().map(|a| a.into_iter().collect()).collect();
    assert_eq!(slashed, vec!["n".to_string(), ".".to_string()]);
}

#[test]
fn module_names_and_scopes_read_as_written() {
    assert_eq!(module_name(Module::Operations), "operations");
    assert_eq!(scope_of("no such group"), Scope::Global);
}

#[test]
fn every_key_and_gesture_is_in_the_document() {
    let text = starfold_ui::keymap::document(15, 19);
    for b in bindings() {
        assert!(text.contains(b.keys), "{:?} is not in the document", b.keys);
        assert!(text.contains(b.label), "{:?} is not in the document", b.label);
    }
    for m in mouse() {
        assert!(text.contains(m.gesture), "{:?} is not in the document", m.gesture);
        assert!(text.contains(m.label), "{:?} is not in the document", m.label);
    }
}

#[test]
fn the_document_heads_each_group_with_its_scope() {
    let text = starfold_ui::keymap::document(15, 19);
    assert!(text.starts_with("# Keys and the mouse\n"));
    assert!(text.contains("\n## navigation\n\n_everywhere_\n\n| key | what it does |\n|---|---|\n"));
    assert!(text.contains("\n## queue\n\n_in operations_\n\n"));
    assert!(text.contains("\n## stack\n\n_in the stack_\n\n"));
    assert!(text.contains("\n## The mouse\n\n"));
    assert!(text.contains("| stack    | click               | move the cursor |\n"));
    let groups: Vec<&str> = text.lines().filter(|l| l.starts_with("## ")).collect();
    let mut seen = groups.clone();
    seen.dedup();
    assert_eq!(seen.len(), groups.len(), "a group is headed twice");
}

#[test]
fn a_module_owns_only_its_scoped_bindings() {
    for b in module_bindings(Module::Operations) {
        assert!(matches!(scope_of(b.group), Scope::Modules(list) if list.contains(&Module::Operations)));
    }
    assert!(module_bindings(Module::Operations).iter().any(|b| b.action == Action::RunOp));
    assert!(global_bindings().iter().all(|b| scope_of(b.group) == Scope::Global));
    assert_eq!(
        global_bindings().len() + modules().iter().map(|&m| module_bindings(m).len()).sum::<usize>(),
        bindings().len(),
        "every binding is global or belongs to exactly one module"
    );
}
