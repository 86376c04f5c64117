//! The record codecs, exercised on the historic fixture blocks: category
//! and address application-info blocks, address records, blobs, and the
//! buffer utilities.

use std::time::{SystemTime, UNIX_EPOCH};

use pisync::address::{
    pack_address, pack_address_app_info, unpack_address, unpack_address_app_info, Address,
    AddressAppInfo, AddressType,
};
use pisync::appinfo::{pack_category_app_info, unpack_category_app_info, CategoryAppInfo};
use pisync::blob::{pack_blob, unpack_blob, Blob, BLOB_TYPE_CALENDAR_TIMEZONE_ID};
use pisync::bytes::{check_block, get_buf_string, get_long, get_short, pi_buffer_expect, reset_block, set_long, set_short};
use pisync::calendar::{
    unpack_calendar_event, CalendarEvent, CalendarRepeatType, CalendarType, ALARM_FLAG, DESC_FLAG,
    EXCEPT_FLAG, LOC_FLAG, NOTE_FLAG, REPEAT_FLAG,
};

fn get_category_app_block() -> Vec<u8> {
    String::from(
        "\
        \x00\x10\x55\x6e\x66\x69\x6c\x65\x64\x00\x00\x00\x00\x00\x00\x00\
        \x00\x00\x42\x75\x73\x69\x6e\x65\x73\x73\x00\x00\x00\x00\x00\x00\
        \x00\x00\x50\x65\x72\x73\x6f\x6e\x61\x6c\x00\x00\x00\x00\x00\x00\
        \x00\x00\x51\x75\x69\x63\x6b\x4c\x69\x73\x74\x00\x00\x00\x00\x00\
        \x00\x00\x46\x6f\x6f\x00\x00\x00\x00\x00\x00\x00\x00\x00\x00\x00\
        \x00\x00\x00\x00\x00\x00\x00\x00\x00\x00\x00\x00\x00\x00\x00\x00\
        \x00\x00\x00\x00\x00\x00\x00\x00\x00\x00\x00\x00\x00\x00\x00\x00\
        \x00\x00\x00\x00\x00\x00\x00\x00\x00\x00\x00\x00\x00\x00\x00\x00\
        \x00\x00\x00\x00\x00\x00\x00\x00\x00\x00\x00\x00\x00\x00\x00\x00\
        \x00\x00\x00\x00\x00\x00\x00\x00\x00\x00\x00\x00\x00\x00\x00\x00\
        \x00\x00\x00\x00\x00\x00\x00\x00\x00\x00\x00\x00\x00\x00\x00\x00\
        \x00\x00\x00\x00\x00\x00\x00\x00\x00\x00\x00\x00\x00\x00\x00\x00\
        \x00\x00\x00\x00\x00\x00\x00\x00\x00\x00\x00\x00\x00\x00\x00\x00\
        \x00\x00\x00\x00\x00\x00\x00\x00\x00\x00\x00\x00\x00\x00\x00\x00\
        \x00\x00\x00\x00\x00\x00\x00\x00\x00\x00\x00\x00\x00\x00\x00\x00\
        \x00\x00\x00\x00\x00\x00\x00\x00\x00\x00\x00\x00\x00\x00\x00\x00\
        \x00\x00\x00\x01\x02\x03\x11\x00\x00\x00\x00\x00\x00\x00\x00\x00\
        \x00\x00\x11\x00\x00\x00",
    )
    .as_bytes()
    .to_vec()
}

fn get_category_app_info() -> CategoryAppInfo {
    let mut category_app_info = CategoryAppInfo::default();
    category_app_info.renamed = vec![0, 0, 0, 0, 1, 0, 0, 0, 0, 0, 0, 0, 0, 0, 0, 0];
    category_app_info.name = vec![
        String::from("Unfiled"),
        String::from("Business"),
        String::from("Personal"),
        String::from("QuickList"),
        String::from("Foo"),
        String::from(""),
        String::from(""),
        String::from(""),
        String::from(""),
        String::from(""),
        String::from(""),
        String::from(""),
        String::from(""),
        String::from(""),
        String::from(""),
        String::from(""),
    ];
    category_app_info.id = vec![0, 1, 2, 3, 17, 0, 0, 0, 0, 0, 0, 0, 0, 0, 0, 0];
    category_app_info.last_unique_id = 17;

    category_app_info
}

#[test]
fn test_unpack_category_app_info() {
    let category_app_block: &Vec<u8> = &get_category_app_block();
    let mci: &mut CategoryAppInfo = &mut CategoryAppInfo::default();
    let l = unpack_category_app_info(mci, category_app_block, category_app_block.len() + 10);
    assert_eq!(l, category_app_block.len());

    let l = unpack_category_app_info(mci, category_app_block, category_app_block.len() + 1);
    assert_eq!(l, category_app_block.len());

    let l = unpack_category_app_info(mci, category_app_block, category_app_block.len() - 10);
    assert_eq!(l, 0);

    let l = unpack_category_app_info(mci, category_app_block, category_app_block.len());
    assert_eq!(l, category_app_block.len());
    assert_eq!(*mci, get_category_app_info());
}

#[test]
fn test_pack_category_app_info() {
    let buf = &mut vec![];
    let target = &mut Vec::<u8>::new();
    let category_app_block: &Vec<u8> = &get_category_app_block();
    let mci = &get_category_app_info();
    let now = SystemTime::now();
    let seed = now
        .duration_since(UNIX_EPOCH)
        .expect("Time went backward")
        .as_millis() as u128;

    let l = pack_category_app_info(mci, buf, 0);
    assert_eq!(l, category_app_block.len());

    target.resize(8192, 0);
    reset_block(target, 8192, seed);
    let l = pack_category_app_info(mci, target, 1);
    assert_eq!(l, 0);
    assert!(!check_block(
        9,
        target,
        8192,
        1,
        String::from("pack_category_app_info"),
        seed
    ));

    reset_block(target, 8192, seed);
    let l = pack_category_app_info(mci, target, 8192 - 256);
    assert_eq!(l, category_app_block.len());
    assert!(!check_block(
        9,
        target,
        8192,
        l,
        String::from("pack_category_app_info"),
        seed
    ));

    for i in 0..category_app_block.len() {
        assert_eq!(target[i], category_app_block[i]);
    }
}

fn get_address_app_block() -> Vec<u8> {
    String::from(
        "\
        \x00\x10\x55\x6e\x66\x69\x6c\x65\x64\x00\x00\x00\x00\x00\x00\x00\
        \x00\x00\x42\x75\x73\x69\x6e\x65\x73\x73\x00\x00\x00\x00\x00\x00\
        \x00\x00\x50\x65\x72\x73\x6f\x6e\x61\x6c\x00\x00\x00\x00\x00\x00\
        \x00\x00\x51\x75\x69\x63\x6b\x4c\x69\x73\x74\x00\x00\x00\x00\x00\
        \x00\x00\x46\x6f\x6f\x00\x00\x00\x00\x00\x00\x00\x00\x00\x00\x00\
        \x00\x00\x00\x00\x00\x00\x00\x00\x00\x00\x00\x00\x00\x00\x00\x00\
        \x00\x00\x00\x00\x00\x00\x00\x00\x00\x00\x00\x00\x00\x00\x00\x00\
        \x00\x00\x00\x00\x00\x00\x00\x00\x00\x00\x00\x00\x00\x00\x00\x00\
        \x00\x00\x00\x00\x00\x00\x00\x00\x00\x00\x00\x00\x00\x00\x00\x00\
        \x00\x00\x00\x00\x00\x00\x00\x00\x00\x00\x00\x00\x00\x00\x00\x00\
        \x00\x00\x00\x00\x00\x00\x00\x00\x00\x00\x00\x00\x00\x00\x00\x00\
        \x00\x00\x00\x00\x00\x00\x00\x00\x00\x00\x00\x00\x00\x00\x00\x00\
        \x00\x00\x00\x00\x00\x00\x00\x00\x00\x00\x00\x00\x00\x00\x00\x00\
        \x00\x00\x00\x00\x00\x00\x00\x00\x00\x00\x00\x00\x00\x00\x00\x00\
        \x00\x00\x00\x00\x00\x00\x00\x00\x00\x00\x00\x00\x00\x00\x00\x00\
        \x00\x00\x00\x00\x00\x00\x00\x00\x00\x00\x00\x00\x00\x00\x00\x00\
        \x00\x00\x00\x01\x02\x03\x11\x00\x00\x00\x00\x00\x00\x00\x00\x00\
        \x00\x00\x11\x00\x00\x00\x00\x00\x0e\x00\x4c\x61\x73\x74\x20\x6e\
        \x61\x6d\x65\x00\x00\x00\x00\x00\x00\x00\x46\x69\x72\x73\x74\x20\
        \x6e\x61\x6d\x65\x00\x00\x00\x00\x00\x00\x43\x6f\x6d\x70\x61\x6e\
        \x79\x00\x00\x00\x00\x00\x00\x00\x00\x00\x57\x6f\x72\x6b\x00\x00\
        \x00\x00\x00\x00\x00\x00\x00\x00\x00\x00\x48\x6f\x6d\x65\x00\x00\
        \x00\x00\x00\x00\x00\x00\x00\x00\x00\x00\x46\x61\x78\x00\x00\x00\
        \x00\x00\x00\x00\x00\x00\x00\x00\x00\x00\x4f\x74\x68\x65\x72\x00\
        \x00\x00\x00\x00\x00\x00\x00\x00\x00\x00\x45\x2d\x6d\x61\x69\x6c\
        \x00\x00\x00\x00\x00\x00\x00\x00\x00\x00\x41\x64\x64\x72\x65\x73\
        \x73\x00\x00\x00\x00\x00\x00\x00\x00\x00\x43\x69\x74\x79\x00\x00\
        \x00\x00\x00\x00\x00\x00\x00\x00\x00\x00\x53\x74\x61\x74\x65\x00\
        \x00\x00\x00\x00\x00\x00\x00\x00\x00\x00\x5a\x69\x70\x20\x43\x6f\
        \x64\x65\x00\x00\x00\x00\x00\x00\x00\x00\x43\x6f\x75\x6e\x74\x72\
        \x79\x00\x00\x00\x00\x00\x00\x00\x00\x00\x54\x69\x74\x6c\x65\x00\
        \x00\x00\x00\x00\x00\x00\x00\x00\x00\x00\x43\x75\x73\x74\x6f\x6d\
        \x20\x31\x00\x00\x00\x00\x00\x00\x00\x00\x43\x75\x73\x74\x6f\x6d\
        \x20\x32\x00\x00\x00\x00\x00\x00\x00\x00\x43\x75\x73\x74\x6f\x6d\
        \x20\x33\x00\x00\x00\x00\x00\x00\x00\x00\x43\x75\x73\x74\x6f\x6d\
        \x20\x34\x00\x00\x00\x00\x00\x00\x00\x00\x4e\x6f\x74\x65\x00\x00\
        \x00\x00\x00\x00\x00\x00\x00\x00\x00\x00\x4d\x61\x69\x6e\x00\x00\
        \x00\x00\x00\x00\x00\x00\x00\x00\x00\x00\x50\x61\x67\x65\x72\x00\
        \x00\x00\x00\x00\x00\x00\x00\x00\x00\x00\x4d\x6f\x62\x69\x6c\x65\
        \x00\x00\x00\x00\x00\x00\x00\x00\x00\x00\x17\x00\x00\x00",
    )
    .as_bytes()
    .to_vec()
}

fn get_address_app_info() -> AddressAppInfo {
    let mut address_app_info = AddressAppInfo::default();
    address_app_info.category.renamed = vec![0, 0, 0, 0, 1, 0, 0, 0, 0, 0, 0, 0, 0, 0, 0, 0];
    address_app_info.category.name = vec![
        String::from("Unfiled"),
        String::from("Business"),
        String::from("Personal"),
        String::from("QuickList"),
        String::from("Foo"),
        String::from(""),
        String::from(""),
        String::from(""),
        String::from(""),
        String::from(""),
        String::from(""),
        String::from(""),
        String::from(""),
        String::from(""),
        String::from(""),
        String::from(""),
    ];
    address_app_info.category.id = vec![0, 1, 2, 3, 17, 0, 0, 0, 0, 0, 0, 0, 0, 0, 0, 0];
    address_app_info.category.last_unique_id = 17;
    address_app_info.labels = vec![
        String::from("Last name"),
        String::from("First name"),
        String::from("Company"),
        String::from("Work"),
        String::from("Home"),
        String::from("Fax"),
        String::from("Other"),
        String::from("E-mail"),
        String::from("Address"),
        String::from("City"),
        String::from("State"),
        String::from("Zip Code"),
        String::from("Country"),
        String::from("Title"),
        String::from("Custom 1"),
        String::from("Custom 2"),
        String::from("Custom 3"),
        String::from("Custom 4"),
        String::from("Note"),
        String::from("Main"),
        String::from("Pager"),
        String::from("Mobile"),
    ];
    address_app_info.label_renamed = vec![
        0, 0, 0, 0, 0, 0, 0, 0, 0, 512, 1024, 2048, 0, 0, 0, 0, 0, 0, 0, 0, 0, 0,
    ];
    address_app_info.phone_labels = vec![
        String::from("Work"),
        String::from("Home"),
        String::from("Fax"),
        String::from("Other"),
        String::from("E-mail"),
        String::from("Main"),
        String::from("Pager"),
        String::from("Mobile"),
    ];
    address_app_info.country = 5888;
    address_app_info.sort_by_company = 0;

    address_app_info
}

fn get_address_record() -> Vec<u8> {
    String::from(
        "\
        \x00\x14\x32\x10\x00\x04\x41\x03\x00\x53\x68\x61\x77\x00\x42\x65\
        \x72\x6e\x61\x72\x64\x00\x4e\x6f\x6e\x65\x20\x6b\x6e\x6f\x77\x6e\
        \x00\x43\x31\x00\x41\x20\x6e\x6f\x74\x65\x2e\x00",
    )
    .as_bytes()
    .to_vec()
}

fn get_address() -> Address {
    let mut address = Address::default();
    address.phone_label = vec![0, 1, 2, 3, 4];
    address.show_phone = 1;
    address.entry = vec![
        String::from("Shaw"),
        String::from("Bernard"),
        String::from(""),
        String::from(""),
        String::from(""),
        String::from(""),
        String::from(""),
        String::from(""),
        String::from("None known"),
        String::from(""),
        String::from(""),
        String::from(""),
        String::from(""),
        String::from(""),
        String::from("C1"),
        String::from(""),
        String::from(""),
        String::from(""),
        String::from("A note."),
    ];

    address
}

#[test]
fn test_unpack_address_app_info() {
    let address_app_block: &Vec<u8> = &get_address_app_block();
    let mai: &mut AddressAppInfo = &mut AddressAppInfo::default();
    let l = unpack_address_app_info(mai, address_app_block, address_app_block.len() + 10);
    assert_eq!(l, address_app_block.len());

    let l = unpack_address_app_info(mai, address_app_block, address_app_block.len() + 1);
    assert_eq!(l, address_app_block.len());

    let l = unpack_address_app_info(mai, address_app_block, address_app_block.len() - 10);
    assert_eq!(l, 0);

    let l = unpack_address_app_info(mai, address_app_block, address_app_block.len());
    assert_eq!(l, address_app_block.len());
    assert_eq!(*mai, get_address_app_info());
}

#[test]
fn test_pack_address_app_info() {
    let buf = &mut vec![];
    let target = &mut Vec::<u8>::new();
    let address_app_block: &Vec<u8> = &get_address_app_block();
    let mai = &get_address_app_info();
    let now = SystemTime::now();
    let seed = now
        .duration_since(UNIX_EPOCH)
        .expect("Time went backward")
        .as_millis() as u128;

    let l = pack_address_app_info(mai, buf, 0);
    assert_eq!(l, address_app_block.len());

    target.resize(8192, 0);
    reset_block(target, 8192, seed);
    let l = pack_address_app_info(mai, target, 1);
    assert_eq!(l, 0);
    assert!(!check_block(
        9,
        target,
        8192,
        1,
        String::from("pack_address_app_info"),
        seed
    ));

    reset_block(target, 8192, seed);
    let l = pack_address_app_info(mai, target, 8192 - 256);
    assert_eq!(l, address_app_block.len());
    assert!(!check_block(
        9,
        target,
        8192,
        l,
        String::from("pack_address_app_info"),
        seed
    ));

    for i in 0..address_app_block.len() {
        assert_eq!(target[i], address_app_block[i]);
    }
}

#[test]
fn test_unpack_address() {
    let m = &mut Address::default();
    let address_record = get_address_record();

    unpack_address(m, &address_record, AddressType::AddressV1);
    assert_eq!(*m, get_address());
}

#[test]
fn test_pack_address() {
    let record_buffer = &mut Vec::with_capacity(0);
    let address_record = get_address_record();
    let address = get_address();

    assert_eq!(
        pack_address(&address, record_buffer, AddressType::AddressV1),
        0
    );
    assert_eq!(record_buffer.len(), address_record.len());
    for i in 0..address_record.len() {
        assert_eq!(record_buffer[i], address_record[i]);
    }
}

fn get_blob_block() -> Vec<u8> {
    String::from(
        "\
        \x00\x00\x42\x64\x30\x30\x00\x02\x01\x02",
    )
    .as_bytes()
    .to_vec()
}

fn get_blob() -> Blob {
    let mut blob = Blob::default();
    blob.blob_type = String::from(BLOB_TYPE_CALENDAR_TIMEZONE_ID);
    blob.length = 2;
    blob.data = vec![1, 2];

    blob
}

#[test]
fn test_unpack_blob() {
    let b = &mut Blob::default();
    let blob = &get_blob();
    let blob_block = &get_blob_block();
    unpack_blob(b, blob_block, 2);
    assert_eq!(*b, *blob);
}

#[test]
fn test_pack_blob() {
    let block = &mut Vec::<u8>::with_capacity(0);
    let blob = &get_blob();
    let blob_block = &get_blob_block()[2..];

    pack_blob(blob, block);

    for i in 0..block.len() {
        assert_eq!(block[i], blob_block[i]);
    }
}

#[test]
fn test_pi_buffer_expect() {
    let mut v: Vec<u8> = vec![1, 2, 3];
    pi_buffer_expect(&mut v, 2);
    assert_eq!(v.capacity() >= 5, true);
}

fn calendar_record(with_blob: bool) -> Vec<u8> {
    let mut buf: Vec<u8> = vec![
        0x0a, 0x00, 0x0b, 0x00, // begin and end times
        0x32, 0x21, // date word
        ALARM_FLAG | REPEAT_FLAG | EXCEPT_FLAG | DESC_FLAG | NOTE_FLAG | LOC_FLAG,
        0x00, // padding
        15, 1, // alarm advance and units
        2, 0, 3, 42, 1, 0, // repeat block: weekly, frequency 3, days 42, week start 1
        0, 1, 0x12, 0x34, // one exception
    ];
    buf.extend_from_slice(b"Mtg\0N\0Here\0");
    if with_blob {
        buf.extend_from_slice(b"Bd00\0");
        buf.push(2);
        buf.extend_from_slice(&[9, 8]);
    }
    buf
}

#[test]
fn test_unpack_calendar_event() {
    let record = calendar_record(false);
    let a = &mut CalendarEvent::default();
    let r = unpack_calendar_event(a, &record, CalendarType::CalendarV1);
    assert_eq!(r, 0);
    assert_eq!(a.event, 0);
    assert_eq!(a.alarm, 1);
    assert_eq!(a.advance, 15);
    assert_eq!(a.advance_units, 1);
    assert_eq!(a.repeat_type, CalendarRepeatType::CalendarRepeatWeekly);
    assert_eq!(a.repeat_forever, 0);
    assert_eq!(a.repeat_frequency, 3);
    assert_eq!(a.repeat_days, vec![0, 2, 0, 8, 0, 32, 0]);
    assert_eq!(a.repeat_week_start, 1);
    assert_eq!(a.exceptions, 1);
    assert_eq!(a.description, "Mtg");
    assert_eq!(a.note, "N");
    assert_eq!(a.location, "Here");
    assert!(a.blob.iter().all(|b| b.length == 0));
}

#[test]
fn test_unpack_calendar_event_trailing_blob() {
    let record = calendar_record(true);
    let a = &mut CalendarEvent::default();
    let r = unpack_calendar_event(a, &record, CalendarType::CalendarV1);
    assert_eq!(r, 0);
    assert_eq!(a.blob[0].blob_type, "Bd00");
    assert_eq!(a.blob[0].length, 2);
    assert_eq!(a.blob[0].data, vec![9, 8]);
    assert_eq!(a.blob[1].length, 0);
}

#[test]
fn test_unpack_calendar_event_rejects_bad_input() {
    let a = &mut CalendarEvent::default();
    assert_eq!(
        unpack_calendar_event(a, &vec![0; 31], CalendarType::Unknown),
        -1
    );
    assert_eq!(
        unpack_calendar_event(a, &vec![0; 4], CalendarType::CalendarV1),
        -1
    );
    // An untimed event: both time words all-ones.
    let mut rec = vec![0xff, 0xff, 0xff, 0xff, 0, 0, 0, 0];
    assert_eq!(unpack_calendar_event(a, &rec, CalendarType::CalendarV1), 0);
    assert_eq!(a.event, 1);
    // A repeat ordinal off the wire format.
    rec[6] = REPEAT_FLAG;
    rec.extend_from_slice(&[6, 0, 0, 0, 0, 0]);
    assert_eq!(unpack_calendar_event(a, &rec, CalendarType::CalendarV1), -1);
}

#[test]
fn test_unpack_address_rejects_unknown_revision() {
    let m = &mut Address::default();
    assert_eq!(unpack_address(m, &get_address_record(), AddressType::Unknown), -1);
    assert_eq!(unpack_address(m, &vec![0; 5], AddressType::AddressV1), -1);
}

#[test]
fn test_unpack_blob_rejects_non_text_tag() {
    // A type tag that is not UTF-8: 0xff cannot begin a character.
    let data: Vec<u8> = vec![0xff, 0x64, 0x30, 0x30, 0x00, 0x00];
    let b = &mut Blob::default();
    assert_eq!(unpack_blob(b, &data, 0), 0);
}

#[test]
fn test_byte_accessors_round_trip() {
    let mut buf: Vec<u8> = vec![0; 8];
    set_short(&mut buf, 0, 0xbeef);
    assert_eq!(get_short(&buf[0..2]), 0xbeef);
    set_long(&mut buf, 2, 0x01020304);
    assert_eq!(get_long(&buf[2..6]), 0x01020304);
    let text: Vec<u8> = vec![b'h', b'i', 0, b'x'];
    let (s, end) = get_buf_string(&text, 0).unwrap();
    assert_eq!(s, "hi");
    assert_eq!(end, 2);
    assert!(get_buf_string(&vec![b'a', b'b'], 0).is_none());
}
