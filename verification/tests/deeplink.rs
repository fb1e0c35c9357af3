use whatsapp_dispatch::deeplink::deeplink;
use whatsapp_dispatch::deeplink::deeplink_verbatim;
use whatsapp_dispatch::deeplink::link_from_parts;
use whatsapp_dispatch::deeplink::phone_digits;
use whatsapp_dispatch::desktop::key_of;
use whatsapp_dispatch::desktop::platform_of;
use whatsapp_dispatch::desktop::InstallationInfo;
use whatsapp_dispatch::desktop::Key;
use whatsapp_dispatch::desktop::Platform;
use whatsapp_dispatch::desktop::WhatsAppResult;
use whatsapp_dispatch::text::chars_of;
use whatsapp_dispatch::text::same_text;

#[test]
fn phone_is_reduced_to_its_digits() {
    assert_eq!(phone_digits("+34 (600) 000-001"), "34600000001");
    assert_eq!(phone_digits(""), "");
    assert_eq!(phone_digits("abc"), "");
    assert_eq!(phone_digits("٣4"), "4");
}

#[test]
fn link_is_put_together_from_its_parts() {
    assert_eq!(link_from_parts("123", "a%20b"), "whatsapp://send?phone=123&text=a%20b");
    assert_eq!(link_from_parts("", ""), "whatsapp://send?phone=&text=");
}

#[test]
fn message_is_percent_encoded() {
    assert_eq!(
        deeplink("+1 555", "hello world!"),
        "whatsapp://send?phone=1555&text=hello%20world%21"
    );
    assert_eq!(
        deeplink("1", "a-b_c.d~e/f?g=h&i"),
        "whatsapp://send?phone=1&text=a-b_c.d~e%2Ff%3Fg%3Dh%26i"
    );
    assert_eq!(deeplink("1", "ñ€"), "whatsapp://send?phone=1&text=%C3%B1%E2%82%AC");
    assert_eq!(deeplink("1", ""), "whatsapp://send?phone=1&text=");
    assert_eq!(deeplink("1", "AZaz09"), "whatsapp://send?phone=1&text=AZaz09");
}

#[test]
fn verbatim_link_keeps_the_phone_as_it_is() {
    assert_eq!(
        deeplink_verbatim("+1 555", "50% off"),
        "whatsapp://send?phone=+1 555&text=50%25%20off"
    );
}

#[test]
fn result_carries_an_error_exactly_on_failure() {
    let good = WhatsAppResult::from_outcome(Ok(()));
    assert!(good.success());
    assert!(good.error().is_none());
    let bad = WhatsAppResult::from_outcome(Err("no handler".to_string()));
    assert!(!bad.success());
    assert_eq!(bad.error().as_deref(), Some("no handler"));
}

#[test]
fn failed_check_counts_as_not_installed() {
    let found = InstallationInfo::from_check("linux".to_string(), Ok(true));
    assert!(found.is_installed());
    assert_eq!(found.platform(), "linux");
    assert!(found.whatsapp_path().is_none());
    assert!(!InstallationInfo::from_check("linux".to_string(), Ok(false)).is_installed());
    assert!(!InstallationInfo::from_check("macos".to_string(), Err("denied".to_string())).is_installed());
}

#[test]
fn platforms_by_name() {
    assert!(platform_of("windows") == Platform::Windows);
    assert!(platform_of("macos") == Platform::MacOs);
    assert!(platform_of("linux") == Platform::Linux);
    assert!(platform_of("freebsd") == Platform::Other);
    assert!(platform_of("Linux") == Platform::Other);
    assert!(platform_of("") == Platform::Other);
}

#[test]
fn only_enter_can_be_pressed() {
    assert!(key_of("Enter") == Some(Key::Enter));
    assert!(key_of("enter").is_none());
    assert!(key_of("Escape").is_none());
    assert!(key_of("").is_none());
}

#[test]
fn text_primitives() {
    assert_eq!(chars_of("añ✓"), vec!['a', 'ñ', '✓']);
    assert!(chars_of("").is_empty());
    assert!(same_text("abc", "abc"));
    assert!(same_text("", ""));
    assert!(!same_text("abc", "abd"));
    assert!(!same_text("abc", "ab"));
    assert!(!same_text("ñ", "n"));
}
