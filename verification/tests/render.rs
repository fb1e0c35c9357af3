use whatsapp_dispatch::template::render;
use whatsapp_dispatch::tokens::TokenMap;

fn tokens(pairs: &[(&str, &str)]) -> TokenMap {
    let mut map = TokenMap::new();
    for (name, value) in pairs {
        map.insert(name.to_string(), value.to_string());
    }
    map
}

#[test]
fn render_substitutes_every_token() {
    let map = tokens(&[("name", "Ana"), ("amount", "50")]);
    assert_eq!(render("Hi {name}, total due {amount}", &map), "Hi Ana, total due 50");
}

#[test]
fn render_leaves_unknown_placeholder() {
    let map = tokens(&[("name", "Bob")]);
    assert_eq!(render("Hi {name}, total due {amount}", &map), "Hi Bob, total due {amount}");
}

#[test]
fn render_with_empty_map_is_identity() {
    let map = TokenMap::new();
    for template in ["", "plain", "Hi {name}", "{a}{b}{c}", "{{x}}", "}{", "{", "a}b{c"] {
        assert_eq!(render(template, &map), template);
    }
}

#[test]
fn render_repeats_the_same_value() {
    let map = tokens(&[("x", "1")]);
    assert_eq!(render("{x}+{x}={y} {x}", &map), "1+1={y} 1");
}

#[test]
fn render_does_not_rescan_values() {
    let map = tokens(&[("a", "{b}"), ("b", "boom")]);
    assert_eq!(render("{a} and {b}", &map), "{b} and boom");
}

#[test]
fn render_is_independent_of_insertion_order() {
    let one = tokens(&[("a", "{b}"), ("b", "{a}")]);
    let other = tokens(&[("b", "{a}"), ("a", "{b}")]);
    assert_eq!(render("{a}{b}", &one), "{b}{a}");
    assert_eq!(render("{a}{b}", &other), "{b}{a}");
}

#[test]
fn render_treats_stray_braces_as_text() {
    let map = tokens(&[("a", "1"), ("x{a", "no"), ("", "empty")]);
    assert_eq!(render("{x{a}}", &map), "{x1}");
    assert_eq!(render("{{a}}", &map), "{1}");
    assert_eq!(render("{a", &map), "{a");
    assert_eq!(render("a}", &map), "a}");
    assert_eq!(render("}{a}{", &map), "}1{");
    assert_eq!(render("{}", &map), "empty");
    assert_eq!(render("{ a }", &map), "{ a }");
}

#[test]
fn render_handles_text_beyond_ascii() {
    let map = tokens(&[("nombre", "Íñigo"), ("€", "euro")]);
    assert_eq!(render("¡Hola {nombre}! {€} ✓ {ñ}", &map), "¡Hola Íñigo! euro ✓ {ñ}");
}

#[test]
fn render_around_a_placeholder() {
    let map = tokens(&[("k", "v")]);
    let before = "a{b";
    let after = "c}d";
    let whole = format!("{}{}{}", before, "{k}", after);
    let expected = format!("{}{}{}", render(before, &map), "v", render(after, &map));
    assert_eq!(render(&whole, &map), expected);
    assert_eq!(render(&whole, &map), "a{bvc}d");
}
