use am03127::datetime::DateTime;
use am03127::error::{Error, StorageFault, TransportFault};
use am03127::flash::MemFlash;
use am03127::page::Page;
use am03127::panel::{is_page_id_valid, is_schedule_id_valid, Panel};
use am03127::schedule::Schedule;
use am03127::store::IdAble;
use am03127::transport::RecordingTransport;

fn fresh_panel() -> Panel<MemFlash, RecordingTransport> {
    Panel::new(RecordingTransport::new(), MemFlash::new(4096), MemFlash::new(4096))
}

#[test]
fn page_round_trip_for_every_id() {
    let mut panel = fresh_panel();
    for id in b'A'..=b'Z' {
        let id = id as char;
        let page = Page::new().page(id).message("hello");
        panel.set_page(id, page.clone()).unwrap();
        assert_eq!(panel.get_page(id), Ok(Some(page)));
    }
    for id in b'A'..=b'Z' {
        let id = id as char;
        panel.delete_page(id).unwrap();
        assert_eq!(panel.get_page(id), Ok(None));
    }
}

#[test]
fn schedule_round_trip_for_every_id() {
    let mut panel = fresh_panel();
    let from = DateTime { year: 25, week: 2, month: 1, day: 6, hour: 8, minute: 0, second: 0 };
    let to = DateTime { year: 25, week: 2, month: 1, day: 10, hour: 18, minute: 0, second: 0 };
    for id in b'A'..=b'E' {
        let id = id as char;
        let schedule = Schedule::new().id(id).from(from).to(to).pages("AB");
        panel.set_schedule(id, schedule.clone()).unwrap();
        assert_eq!(panel.get_schedule(id), Ok(Some(schedule)));
    }
    for id in b'A'..=b'E' {
        let id = id as char;
        panel.delete_schedule(id).unwrap();
        assert_eq!(panel.get_schedule(id), Ok(None));
    }
}

#[test]
fn invalid_page_id_is_rejected_with_no_side_effects() {
    let mut panel = fresh_panel();
    let before = panel.transport.frame_count();
    let page = Page::new().message("x");
    assert_eq!(panel.set_page('a', page), Err(Error::BadRequest));
    assert_eq!(panel.set_page('[', Page::new()), Err(Error::BadRequest));
    assert_eq!(panel.delete_page('@'), Err(Error::BadRequest));
    assert_eq!(panel.get_page('z'), Err(Error::BadRequest));
    assert_eq!(panel.transport.frame_count(), before);
    assert_eq!(panel.get_pages(), Ok(vec![]));
}

#[test]
fn invalid_schedule_id_is_rejected_with_no_side_effects() {
    let mut panel = fresh_panel();
    let before = panel.transport.frame_count();
    let schedule = Schedule::new();
    assert_eq!(panel.set_schedule('F', schedule), Err(Error::BadRequest));
    assert_eq!(panel.delete_schedule('f'), Err(Error::BadRequest));
    assert_eq!(panel.get_schedule('Z'), Err(Error::BadRequest));
    assert_eq!(panel.transport.frame_count(), before);
    assert_eq!(panel.get_schedules(), Ok(vec![]));
}

#[test]
fn id_validators_accept_exactly_their_ranges() {
    assert!(is_page_id_valid('A') && is_page_id_valid('Z'));
    assert!(!is_page_id_valid('a') && !is_page_id_valid('@') && !is_page_id_valid('['));
    assert!(is_schedule_id_valid('A') && is_schedule_id_valid('E'));
    assert!(!is_schedule_id_valid('F') && !is_schedule_id_valid('a'));
}

#[test]
fn set_page_sends_the_exact_frame_before_persisting() {
    let mut panel = fresh_panel();
    let page = Page::new().message("TEST");
    panel.set_page('A', page).unwrap();
    assert_eq!(panel.transport.frame_count(), 1);
    let expected = am03127::codec::command(1, b"<L1><PA><FA><MA><WA><FK>TEST");
    assert_eq!(panel.transport.frame_at(0).clone(), expected);
}

#[test]
fn delete_page_sends_the_delete_command() {
    let mut panel = fresh_panel();
    panel.delete_page('B').unwrap();
    let expected = am03127::codec::command(1, b"<DL1PB>");
    assert_eq!(panel.transport.frame_at(0).clone(), expected);
}

#[test]
fn set_clock_sends_but_never_persists() {
    let mut panel = fresh_panel();
    let date_time = DateTime { year: 25, week: 7, month: 2, day: 14, hour: 9, minute: 30, second: 5 };
    panel.set_clock(date_time).unwrap();
    let expected = am03127::codec::command(1, b"<SC>25070214093005");
    assert_eq!(panel.transport.frame_at(0).clone(), expected);
    assert_eq!(panel.get_pages(), Ok(vec![]));
    assert_eq!(panel.get_schedules(), Ok(vec![]));
}

#[test]
fn delete_all_sends_and_empties_both_stores() {
    let mut panel = fresh_panel();
    panel.set_page('A', Page::new().message("x")).unwrap();
    panel.set_schedule('B', Schedule::new()).unwrap();
    panel.delete_all().unwrap();
    assert_eq!(panel.get_pages(), Ok(vec![]));
    assert_eq!(panel.get_schedules(), Ok(vec![]));
    let expected = am03127::codec::command(1, b"<D*>");
    assert_eq!(panel.transport.frame_at(2).clone(), expected);
}

#[test]
fn persisted_content_survives_a_power_loss_and_replays_on_init() {
    let mut panel = fresh_panel();
    let page = Page::new().page('C').message("KEEP");
    panel.set_page('C', page.clone()).unwrap();
    let schedule = Schedule::new().id('A').pages("C");
    panel.set_schedule('A', schedule.clone()).unwrap();

    // a reboot: the flash contents persist, the transport history does not
    let page_image = panel.page_store.flash.snapshot();
    let schedule_image = panel.schedule_store.flash.snapshot();
    let mut rebooted = Panel::new(
        RecordingTransport::new(),
        MemFlash::from_bytes(page_image),
        MemFlash::from_bytes(schedule_image),
    );
    assert_eq!(rebooted.get_page('C'), Ok(Some(page.clone())));
    assert_eq!(rebooted.get_schedule('A'), Ok(Some(schedule)));

    rebooted.init().unwrap();
    assert_eq!(rebooted.transport.frame_count(), 3);
    assert_eq!(rebooted.transport.frame_at(0).clone(), am03127::codec::set_id(1));
    let page_frame = am03127::codec::command(1, b"<L1><PC><FA><MA><WA><FK>KEEP");
    assert_eq!(rebooted.transport.frame_at(1).clone(), page_frame);
}

#[test]
fn stored_pages_carry_their_ids() {
    let mut panel = fresh_panel();
    panel.set_page('D', Page::new().page('D').message("x")).unwrap();
    let pages = panel.get_pages().unwrap();
    assert_eq!(pages.len(), 1);
    assert_eq!(pages[0].get_id(), 'D');
}

#[test]
fn transport_failure_leaves_the_store_untouched() {
    let mut panel = fresh_panel();
    panel.set_page('A', Page::new().message("old")).unwrap();
    panel.transport.set_refusal(Some(TransportFault::Nack));
    assert_eq!(
        panel.set_page('A', Page::new().message("new")),
        Err(Error::Transport(TransportFault::Nack))
    );
    assert_eq!(panel.delete_page('A'), Err(Error::Transport(TransportFault::Nack)));
    panel.transport.set_refusal(None);
    // the persisted content still shows the last successful write
    assert_eq!(panel.get_page('A'), Ok(Some(Page::new().message("old"))));
}

#[test]
fn storage_exhaustion_surfaces_as_a_storage_error() {
    // a page region too small for even one record
    let mut panel = Panel::new(RecordingTransport::new(), MemFlash::new(8), MemFlash::new(256));
    let result = panel.set_page('A', Page::new().message("hello"));
    assert_eq!(result, Err(Error::Storage(StorageFault::Full)));
    // the command still reached the device before the persist failed
    assert_eq!(panel.transport.frame_count(), 1);
}
