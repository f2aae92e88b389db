use am03127::codec;
use am03127::datetime::DateTime;
use am03127::delete::{DeleteAll, DeletePage, DeleteSchedule};
use am03127::effects::{Lagging, Leading, WaitingModeAndSpeed, WaitingTime};
use am03127::error::Error;
use am03127::formatting::{Clock, ColumnStart, Font};
use am03127::page::Page;
use am03127::schedule::Schedule;
use am03127::text::escape_message;

#[test]
fn checksum_of_delete_all_payload() {
    // 0x3C ^ 0x44 ^ 0x2A ^ 0x3E == 0x6C
    assert_eq!(codec::checksum(b"<D*>"), 0x6C);
}

#[test]
fn checksum_of_empty_payload_is_zero() {
    assert_eq!(codec::checksum(b""), 0);
}

#[test]
fn command_frames_delete_all_exactly() {
    let frame = codec::command(1, b"<D*>");
    assert_eq!(frame, b"<ID01><D*>6C<E>".to_vec());
}

#[test]
fn command_renders_panel_id_as_two_hex_digits() {
    let frame = codec::command(0xAB, b"");
    assert_eq!(frame, b"<IDAB>00<E>".to_vec());
}

#[test]
fn set_id_frame_layout() {
    assert_eq!(codec::set_id(1), b"<ID><01><E>".to_vec());
    assert_eq!(codec::set_id(0x2F), b"<ID><2F><E>".to_vec());
}

#[test]
fn escaping_substitutes_u_umlaut() {
    assert_eq!(escape_message("m\u{fc}ller"), b"m<U7C>ller".to_vec());
}

#[test]
fn escaping_substitutes_each_diacritic() {
    assert_eq!(escape_message("\u{fc}"), b"<U7C>".to_vec());
    assert_eq!(escape_message("\u{dc}"), b"<U5C>".to_vec());
    assert_eq!(escape_message("\u{e4}"), b"<U64>".to_vec());
    assert_eq!(escape_message("\u{c4}"), b"<U44>".to_vec());
    assert_eq!(escape_message("\u{f6}"), b"<U76>".to_vec());
    assert_eq!(escape_message("\u{d6}"), b"<U56>".to_vec());
    assert_eq!(escape_message("\u{df}"), b"<U5F>".to_vec());
}

#[test]
fn escaping_passes_plain_text_through() {
    assert_eq!(escape_message("Hello, World! 123"), b"Hello, World! 123".to_vec());
}

#[test]
fn escaping_keeps_other_unicode_as_utf8() {
    assert_eq!(escape_message("\u{e9}"), "\u{e9}".as_bytes().to_vec());
}

#[test]
fn page_payload_layout() {
    let page = Page::new().message("TEST");
    assert_eq!(page.payload_bytes(), b"<L1><PA><FA><MA><WA><FK>TEST".to_vec());
}

#[test]
fn page_command_wraps_payload() {
    let page = Page::new().page('B').message("HI");
    let payload = page.payload_bytes();
    let frame = page.command(1).expect("short page must encode");
    assert_eq!(frame, codec::command(1, &payload));
}

#[test]
fn page_effects_render_their_wire_characters() {
    let page = Page::new()
        .leading(Leading::ScrollLeft)
        .lagging(Lagging::CurtainUp)
        .waiting_mode_and_speed(WaitingModeAndSpeed::SlowestSong3)
        .waiting_time(WaitingTime::new(2));
    assert_eq!(page.payload_bytes(), b"<L1><PA><FE><Mu><WC><FC>".to_vec());
}

#[test]
fn waiting_time_saturates_at_maximum() {
    let page = Page::new().waiting_time(WaitingTime::new(200));
    // 25 steps render as the letter Z
    assert_eq!(page.payload_bytes(), b"<L1><PA><FA><MA><WZ><FK>".to_vec());
}

#[test]
fn oversize_message_is_rejected_not_truncated() {
    let long = "X".repeat(60);
    let page = Page::new().message(&long);
    assert_eq!(page.command(1), Err(Error::Internal));
}

#[test]
fn longest_fitting_message_still_encodes() {
    // payload is 24 framing bytes plus the message; the frame adds 11
    // more, so 29 message bytes exactly reach the 64-byte cap
    let fits = "Y".repeat(29);
    let page = Page::new().message(&fits);
    assert!(page.command(1).is_ok());
    let over = "Y".repeat(30);
    let page = Page::new().message(&over);
    assert_eq!(page.command(1), Err(Error::Internal));
}

#[test]
fn delete_all_command_frame() {
    assert_eq!((DeleteAll {}).command(1), b"<ID01><D*>6C<E>".to_vec());
}

#[test]
fn delete_page_payload_layout() {
    let delete = DeletePage::new('C');
    assert_eq!(delete.payload_bytes(), b"<DL1PC>".to_vec());
    let delete = DeletePage::new('C').line(2).page_id('D');
    assert_eq!(delete.payload_bytes(), b"<DL2PD>".to_vec());
}

#[test]
fn delete_schedule_payload_layout() {
    let delete = DeleteSchedule::new('B');
    assert_eq!(delete.payload_bytes(), b"<DTB>".to_vec());
}

#[test]
fn set_clock_payload_layout() {
    let date_time = DateTime {
        year: 25,
        week: 7,
        month: 2,
        day: 14,
        hour: 9,
        minute: 30,
        second: 5,
    };
    assert_eq!(date_time.payload_bytes(), b"<SC>25070214093005".to_vec());
}

#[test]
fn set_clock_rejects_out_of_layout_fields() {
    let date_time = DateTime { year: 200, week: 1, month: 1, day: 1, hour: 0, minute: 0, second: 0 };
    assert_eq!(date_time.checked_command(1), Err(Error::BadRequest));
}

#[test]
fn schedule_payload_layout() {
    let from = DateTime { year: 25, week: 1, month: 1, day: 1, hour: 8, minute: 0, second: 0 };
    let to = DateTime { year: 25, week: 1, month: 1, day: 2, hour: 20, minute: 30, second: 0 };
    let schedule = Schedule::new().id('B').from(from).to(to).pages("ABC");
    assert_eq!(
        schedule.payload_bytes(),
        b"<TB>2501010108000025010102203000ABC".to_vec()
    );
}

#[test]
fn oversize_schedule_page_list_is_rejected() {
    let from = DateTime::new();
    let to = DateTime::new();
    let pages = "A".repeat(30);
    let schedule = Schedule::new().id('A').from(from).to(to).pages(&pages);
    assert_eq!(schedule.command(1), Err(Error::Internal));
}

#[test]
fn formatting_inserts() {
    assert_eq!(Font::Narrow.insert_bytes(), b"<AC>".to_vec());
    assert_eq!(Font::Normal.insert_bytes(), b"<AA>".to_vec());
    assert_eq!(ColumnStart(0x29).insert_bytes(), b"<N29>".to_vec());
    assert_eq!(Clock::Time.insert_bytes(), b"<KT>".to_vec());
    assert_eq!(Clock::Date.insert_bytes(), b"<KD>".to_vec());
}
