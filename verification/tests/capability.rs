use hayate_core::capability::{BatteryStatus, CapabilityError, Connectivity};

#[test]
fn unimplemented_constructor_carries_capability_and_platform() {
    let e = CapabilityError::unimplemented("clipboard", "android");
    assert_eq!(
        e,
        CapabilityError::Unimplemented {
            capability: "clipboard",
            platform: "android"
        }
    );
}

#[test]
fn display_distinguishes_the_three_variants() {
    assert!(CapabilityError::unimplemented("clipboard", "ios")
        .message()
        .contains("not yet implemented"));
    assert!(CapabilityError::unsupported("haptics", "ios")
        .message()
        .contains("not supported"));
    assert!(CapabilityError::Platform {
        code: 7,
        message: "boom".into()
    }
    .message()
    .contains("platform error 7"));
}

#[test]
fn messages_read_in_full() {
    assert_eq!(
        CapabilityError::unimplemented("clipboard", "ios").message(),
        "capability `clipboard` is not yet implemented on ios"
    );
    assert_eq!(
        CapabilityError::unsupported("haptics", "web").message(),
        "capability `haptics` is not supported on web"
    );
    assert_eq!(
        CapabilityError::Platform { code: -3, message: "boom".into() }.message(),
        "platform error -3: boom"
    );
}

#[test]
fn value_types_default_to_empty_states() {
    assert_eq!(BatteryStatus::default(), BatteryStatus { level: 0, charging: false });
    assert_eq!(Connectivity::default(), Connectivity::Offline);
}
