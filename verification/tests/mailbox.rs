use fusarium::armv6a::drivers::mailbox::{Mail, MailBox, MailStatus};

#[test]
fn data_set_then_get_gives_data_back() {
    let m = Mail::new().data().set(0x1234);
    assert_eq!(u32::from(m), 0x12340);
    let m = Mail::from(0x1234_5678).data().set(0xABC);
    assert_eq!(m.data().get(), 0xABC);
}

#[test]
fn data_set_keeps_the_channel() {
    let w = u32::from(Mail::from(0x0000_0007).data().set(0x55));
    assert_eq!(w, 0x557);
    assert_eq!(Mail::from(w).chan().get(), 7);
}

#[test]
fn data_set_drops_the_top_four_bits() {
    let w = u32::from(Mail::new().data().set(0xF123_4567));
    assert_eq!(w, 0x1234_5670);
    assert_eq!(Mail::from(w).data().get(), 0x0123_4567);
}

#[test]
fn data_set_noshift_keeps_bits_in_place() {
    let m = Mail::from(0x3).data().set_noshift(0x0040_00FF);
    assert_eq!(u32::from(m), 0x0040_00F3);
    assert_eq!(Mail::from(0x0040_00F3).data().get(), 0x0040_00F);
}

#[test]
fn channel_set_then_get() {
    let m = Mail::from(0xABCD_EF00).chan().set(8);
    assert_eq!(u32::from(m), 0xABCD_EF08);
    let w = u32::from(Mail::from(0xABCD_EF0F).chan().set(0x21));
    assert_eq!(w, 0xABCD_EF01);
    assert_eq!(Mail::from(w).chan().get(), 1);
}

#[test]
fn channel_and_data_commute() {
    let a = Mail::from(0x1111_1112).chan().set(5).data().set(0x77);
    let b = Mail::from(0x1111_1112).data().set(0x77).chan().set(5);
    let (a, b) = (u32::from(a), u32::from(b));
    assert_eq!(a, b);
    assert_eq!(a, 0x775);
}

#[test]
fn mail_u32_round_trip() {
    assert_eq!(u32::from(Mail::from(0xDEAD_BEEF)), 0xDEAD_BEEF);
    assert_eq!(u32::from(Mail::default()), 0);
    assert_eq!(u32::from(Mail::new()), 0);
}

#[test]
fn status_flags() {
    assert!(!MailStatus::from(0x4000_0000).is_empty());
    assert!(!MailStatus::from(0x4000_0000).is_full());
    assert!(MailStatus::from(0x8000_0000).is_full());
    assert!(MailStatus::from(0x8000_0000).is_empty());
    assert!(MailStatus::from(0xC000_0000).is_full());
    assert!(!MailStatus::from(0xC000_0000).is_empty());
    assert!(MailStatus::from(0x3FFF_FFFF).is_empty());
    assert!(!MailStatus::from(0x3FFF_FFFF).is_full());
    assert!(MailStatus::from(0).is_empty());
}

#[test]
fn mailbox_constructs() {
    let _a = MailBox::new();
    let _b = MailBox::default();
}
