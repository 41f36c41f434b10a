use dx_gp21::checksum::{compute, verify};
use dx_gp21::command::sink::CommandSink;
use dx_gp21::command::{
    cmd_query_info, cmd_save_config, cmd_set_baud, cmd_set_nmea_output, cmd_set_nmea_version, cmd_set_systems,
    cmd_set_update_rate, BaudRate, ConstellationMask, InfoField, RestartMode, UpdateRate,
};
use dx_gp21::embedded::{EmbeddedSession, GnssState as EmbeddedState, LineAssembler, Power};
use dx_gp21::host_state::GnssState;
use dx_gp21::nmea::gsv::GsvData;
use dx_gp21::nmea::{parse_sentence, split_fields, ParseError, ParsedSentence};
use dx_gp21::playback::{seek_lines, step_lines, Playback};
use dx_gp21::sentence_reader::{sentence_line, SentenceReader};
use dx_gp21::state::{feed_sentence, snapshot_position, GnssStore, SentenceType};
use dx_gp21::types::{
    AntennaStatus, Coordinate, FixMode, FixQuality, FloatText, GnssSystem, NmeaDate, NmeaTime,
    SatInfo,
};

fn value(t: &FloatText) -> f64 {
    std::str::from_utf8(t.as_bytes()).unwrap().parse::<f64>().unwrap()
}

fn degrees(c: &Coordinate) -> f64 {
    let v = value(&c.degrees) + value(&c.minutes) / 60.0;
    if c.negative {
        -v
    } else {
        v
    }
}

/// Frame a body into a checksummed NMEA line.
fn line(body: &str) -> String {
    format!("${}*{:02X}", body, compute(body.as_bytes()))
}

fn sat(svid: u16, system: GnssSystem, snr: Option<u8>, used: bool) -> SatInfo {
    SatInfo { svid, system, elevation: Some(10), azimuth: Some(20), snr, used }
}

// ── Checksum ─────────────────────────────────────────────────────────────────

#[test]
fn checksum_is_xor_of_body() {
    assert_eq!(compute(b"PCAS00"), 0x01);
    assert_eq!(compute(b""), 0);
    assert_eq!(compute(b"GNFOO,1,2,3"), 0x53);
}

#[test]
fn verify_returns_body_or_rejects() {
    assert_eq!(verify(b"$PCAS00*01\r\n"), Some(&b"PCAS00"[..]));
    assert_eq!(verify(b"$PCAS00*02"), None);
    assert_eq!(verify(b"PCAS00*01"), None);
    assert_eq!(verify(b"$PCAS00"), None);
    // Lower-case hex digits are accepted.
    assert_eq!(verify(b"$GPTXT,01,01,01,ANTENNA OK*35"), Some(&b"GPTXT,01,01,01,ANTENNA OK"[..]));
}

// ── Command builders ─────────────────────────────────────────────────────────

#[test]
fn builders_match_catalogue_lines() {
    let mut buf = [0u8; 64];
    let n = cmd_set_nmea_output(
        &mut buf, Some(1), Some(1), Some(1), Some(1), Some(1), Some(1), Some(1), Some(1), Some(1), Some(1),
    );
    let expected = line("PCAS03,1,1,1,1,1,1,1,1,1,,,,,1") + "\r\n";
    assert_eq!(n, 36);
    assert_eq!(&buf[..n], b"$PCAS03,1,1,1,1,1,1,1,1,1,,,,,1*02\r\n");
    assert_eq!(&buf[..n], expected.as_bytes());
    assert!(verify(&buf[..n]).is_some());

    let n = cmd_query_info(&mut buf, InfoField::Firmware);
    assert_eq!(&buf[..n], b"$PCAS06,0*1B\r\n");
    let n = cmd_set_nmea_version(&mut buf, true);
    assert_eq!(&buf[..n], b"$PCAS05,2*1A\r\n");
    let n = cmd_set_nmea_version(&mut buf, false);
    assert_eq!(&buf[..n], b"$PCAS05,5*1D\r\n");
    let n = cmd_set_update_rate(&mut buf, UpdateRate::Hz5);
    assert_eq!(&buf[..n], b"$PCAS02,200*1D\r\n");
    let n = cmd_set_baud(&mut buf, BaudRate::B4800);
    assert_eq!(&buf[..n], b"$PCAS01,0*1C\r\n");
}

#[test]
fn builder_into_short_buffer_writes_nothing() {
    let mut small = [0u8; 8];
    assert_eq!(cmd_save_config(&mut small), 0);
    assert_eq!(small, [0u8; 8]);
    assert_eq!(cmd_set_baud(&mut small, BaudRate::B9600), 0);
    // The body bytes that fit were written as they were pushed.
    assert_eq!(&small, b"PCAS01,1");
}

#[test]
fn bytes_after_the_frame_stay() {
    let mut buf = [0xAAu8; 20];
    let n = cmd_save_config(&mut buf);
    assert_eq!(&buf[..n], b"$PCAS00*01\r\n");
    assert!(buf[n..].iter().all(|&b| b == 0xAA));
    let mut buf = [0xAAu8; 20];
    let n = cmd_set_baud(&mut buf, BaudRate::B9600);
    assert_eq!(&buf[..n], b"$PCAS01,1*1D\r\n");
    assert!(buf[n..].iter().all(|&b| b == 0xAA));
}

#[test]
fn systems_mask_is_written_without_leading_zero() {
    let mut buf = [0u8; 32];
    let n = cmd_set_systems(&mut buf, ConstellationMask::GPS() | ConstellationMask::BDS());
    assert_eq!(&buf[..n], b"$PCAS04,3*1A\r\n");
    let n = cmd_set_systems(&mut buf, ConstellationMask::GPS());
    assert_eq!(&buf[..n], b"$PCAS04,1*18\r\n");
    let n = cmd_set_systems(&mut buf, ConstellationMask::QZSS() | ConstellationMask::GALILEO());
    assert_eq!(&buf[..n], (line("PCAS04,18") + "\r\n").as_bytes());
    let n = cmd_set_systems(&mut buf, ConstellationMask::ALL());
    assert_eq!(&buf[..n], b"$PCAS04,7F*58\r\n");
}

#[test]
fn nmea_output_empty_fields_keep_setting() {
    let mut buf = [0u8; 64];
    let n = cmd_set_nmea_output(&mut buf, Some(1), None, None, None, None, None, None, None, None, Some(0));
    let expected = line(&format!("PCAS03,1{}0", ",".repeat(13))) + "\r\n";
    assert_eq!(&buf[..n], expected.as_bytes());
    assert!(verify(&buf[..n]).is_some());
}

// ── Command parameters ───────────────────────────────────────────────────────

#[test]
fn baud_rate_conversions() {
    assert_eq!(BaudRate::from_bps(9600), Some(BaudRate::B9600));
    assert_eq!(BaudRate::from_bps(1234), None);
    assert_eq!(BaudRate::nearest(100_000), BaudRate::B115200);
    assert_eq!(BaudRate::nearest(0), BaudRate::B4800);
    assert_eq!(BaudRate::nearest(30_000), BaudRate::B38400);
    assert_eq!(BaudRate::B57600.bps(), 57600);
    assert_eq!(BaudRate::B57600.param(), 4);
    assert_eq!(BaudRate::B115200.to_string(), "115200 bps");
    assert!(BaudRate::try_from(1200u32).is_err());
    assert_eq!(BaudRate::try_from(19200u32), Ok(BaudRate::B19200));
    assert_eq!(BaudRate::default(), BaudRate::B115200);
    assert_eq!(u32::from(BaudRate::B9600), 9600);
}

#[test]
fn update_rate_conversions() {
    assert_eq!(UpdateRate::from_hz(5), Ok(UpdateRate::Hz5));
    assert_eq!(UpdateRate::from_hz(3), Err(()));
    assert_eq!(UpdateRate::from_period_ms(100), Ok(UpdateRate::Hz10));
    assert_eq!(UpdateRate::from_period_ms(300), Err(()));
    for r in [UpdateRate::Hz1, UpdateRate::Hz2, UpdateRate::Hz5, UpdateRate::Hz10] {
        assert_eq!(r.hz() as u32 * r.period_ms(), 1000);
        assert_eq!(UpdateRate::from_hz(r.hz()), Ok(r));
    }
    assert_eq!(UpdateRate::Hz10.to_string(), "10 Hz");
    assert_eq!(UpdateRate::try_from(2u8), Ok(UpdateRate::Hz2));
    assert_eq!(UpdateRate::try_from(500u32), Ok(UpdateRate::Hz2));
    assert!(UpdateRate::try_from(7u8).is_err());
}

#[test]
fn constellation_mask_labels_and_ops() {
    let m = ConstellationMask::GPS() | ConstellationMask::BDS();
    assert_eq!(m.as_u8(), 0x03);
    assert_eq!(m.to_string(), "GPS+BDS");
    assert_eq!(ConstellationMask::ALL().to_string(), "GPS+BDS+GLO+GAL+QZS");
    assert!(m.contains(ConstellationMask::GPS()));
    assert!(!m.contains(ConstellationMask::GLONASS()));
    assert_eq!((m & ConstellationMask::BDS()).as_u8(), 0x02);
    assert_eq!(u8::from(ConstellationMask::from(0x10u8)), 0x10);
    assert_eq!(RestartMode::Cold.param(), 2);
}

// ── Parsing ──────────────────────────────────────────────────────────────────

#[test]
fn parse_error_message() {
    assert_eq!(ParseError.to_string(), "NMEA parse error (checksum, malformed fields, or unknown type)");
}

#[test]
fn time_and_date_fields() {
    let t = NmeaTime::parse_field(b"123456.789").unwrap();
    assert_eq!((t.hour, t.minute, t.second, t.millis), (12, 34, 56, 789));
    assert_eq!(t.to_string(), "12:34:56");
    assert!(NmeaTime::parse_field(b"1234").is_err());
    let d = NmeaDate::parse_field(b"090724").unwrap();
    assert_eq!((d.day, d.month, d.year), (9, 7, 2024));
    assert_eq!(d.to_string(), "2024-07-09");
    assert!(NmeaDate::parse_field(b"09x724").is_err());
    let early = NmeaTime { hour: 1, minute: 2, second: 3, millis: 0 };
    assert_eq!(early.to_string(), "01:02:03");
}

#[test]
fn talker_ids_name_constellations() {
    assert_eq!(GnssSystem::from_talker(b"GP"), GnssSystem::Gps);
    assert_eq!(GnssSystem::from_talker(b"BD"), GnssSystem::Beidou);
    assert_eq!(GnssSystem::from_talker(b"GB"), GnssSystem::Beidou);
    assert_eq!(GnssSystem::from_talker(b"GN"), GnssSystem::Multi);
    assert_eq!(GnssSystem::Glonass.label(), "GLO");
    assert_eq!(GnssSystem::Qzss.to_string(), "QZS");
}

#[test]
fn split_keeps_at_most_24_fields() {
    let body: Vec<u8> = (0..40).map(|_| b',').collect();
    assert_eq!(split_fields(&body).len(), 24);
    assert_eq!(split_fields(b"A,B").len(), 2);
    assert_eq!(split_fields(b"").len(), 1);
}

#[test]
fn gga_fields_fall_back() {
    let l = line("GPGGA,010203.00,4530.0,S,07300.0,W,6,,,,M,,M,,");
    match parse_sentence(l.as_bytes()) {
        Some(ParsedSentence::Gga(g)) => {
            assert_eq!(g.fix_quality, FixQuality::Estimated);
            assert_eq!(g.sats_used, 0);
            assert!((value(&g.hdop) - 99.9).abs() < 1e-9);
            assert_eq!(value(&g.alt_msl), 0.0);
            assert!((degrees(&g.lat) + 45.5).abs() < 1e-9);
            assert!((degrees(&g.lon) + 73.0).abs() < 1e-9);
        }
        _ => panic!("expected GGA"),
    }
    // A GGA without coordinates is rejected.
    assert!(parse_sentence(line("GPGGA,010203.00,,,,,0,,,,M,,M,,").as_bytes()).is_none());
}

#[test]
fn proprietary_and_short_ids() {
    assert!(parse_sentence(line("GN").as_bytes()).is_none());
    assert!(parse_sentence(line("GNGG,1").as_bytes()).is_none());
    // A TXT reports the antenna status.
    match parse_sentence(line("GPTXT,01,01,01,ANTENNA OPEN").as_bytes()) {
        Some(ParsedSentence::Txt(t)) => assert_eq!(t.antenna_status, AntennaStatus::Open),
        _ => panic!("expected TXT"),
    }
}

#[test]
fn lines_that_would_cut_a_character_are_refused() {
    let ok = line("GNGGA,073028.600,4000.00000,N,11600.00000,E,1,08,1.2,100.0,M,0.0,M,,");
    assert!(parse_sentence(ok.as_bytes()).is_some());
    // The id "Gé…": the talker would end inside the é.
    let bad = line("Géxyz,1");
    assert!(parse_sentence(bad.as_bytes()).is_none());
    // A time field holding a two-byte character, with a correct checksum.
    let mut zda = b"$GNZDA,1\xC3\xA92345,01,01,2001*".to_vec();
    let cs = compute(&zda[1..zda.len() - 1]);
    zda.extend_from_slice(format!("{:02X}", cs).as_bytes());
    assert!(verify(&zda).is_some());
    assert!(parse_sentence(&zda).is_none());
    // Checksum digits that would end inside a character.
    assert!(verify(b"$*\xE2\x82\xAC").is_none());
    let mut state = GnssState::default();
    assert!(feed_sentence(&mut state, &zda).is_none());
    assert!(ParsedSentence::try_from_bytes(&zda).is_err());
}

// ── Stores ───────────────────────────────────────────────────────────────────

#[test]
fn store_reads_back_what_was_fed() {
    let mut state = GnssState::default();
    assert_eq!(state.sats_in_view_count(), 0);
    assert!(!state.has_fix());
    assert!(state.position().is_none());
    feed_sentence(&mut state, line("GNGGA,010203.00,4000.0,N,11600.0,E,1,07,1.0,12.5,M,0.0,M,,").as_bytes()).unwrap();
    let (lat, lon) = state.position().unwrap();
    assert!((degrees(lat) - 40.0).abs() < 1e-9 && (degrees(lon) - 116.0).abs() < 1e-9);
    assert_eq!(value(state.altitude_msl().unwrap()), 12.5);
    assert_eq!(state.utc_time().unwrap(), NmeaTime { hour: 1, minute: 2, second: 3, millis: 0 });
    assert_eq!(state.sats_used_count(), 7);
    assert!(state.utc_date().is_none());
    feed_sentence(&mut state, line("GNZDA,010203.00,05,06,2007,00,00").as_bytes()).unwrap();
    assert_eq!(state.utc_date().unwrap(), NmeaDate { day: 5, month: 6, year: 2007 });
    feed_sentence(&mut state, line("GNVTG,90.0,T,,M,1.0,N,1.85,K,A").as_bytes()).unwrap();
    assert_eq!(value(state.speed_kmh().unwrap()), 1.85);
    assert_eq!(value(state.course_deg().unwrap()), 90.0);
    // A line that does not parse leaves the state alone.
    assert!(feed_sentence(&mut state, b"$GNGGA*00").is_none());
    assert_eq!(state.sats_used_count(), 7);
}

#[test]
fn gsv_replaces_own_constellation_and_keeps_others() {
    let mut state = GnssState::default();
    feed_sentence(&mut state, line("GPGSV,1,1,02,01,45,090,35,02,30,180,30").as_bytes()).unwrap();
    feed_sentence(&mut state, line("GBGSV,1,1,01,05,50,045,38").as_bytes()).unwrap();
    assert_eq!(state.satellites().len(), 3);
    // A new first message for GPS replaces the GPS satellites only.
    feed_sentence(&mut state, line("GPGSV,1,1,01,09,10,000,20").as_bytes()).unwrap();
    let svids: Vec<(u16, GnssSystem)> = state.satellites().iter().map(|s| (s.svid, s.system)).collect();
    assert_eq!(svids, vec![(5, GnssSystem::Beidou), (9, GnssSystem::Gps)]);
    // An empty report changes nothing.
    feed_sentence(&mut state, line("GPGSV,1,1,00").as_bytes()).unwrap();
    assert_eq!(state.satellites().len(), 2);
    // A second message appends.
    feed_sentence(&mut state, line("GPGSV,2,2,05,11,10,000,20").as_bytes()).unwrap();
    assert_eq!(state.satellites().len(), 3);
}

#[test]
fn gsa_marks_listed_satellites_used() {
    let mut state = GnssState::default();
    feed_sentence(&mut state, line("GPGSV,1,1,02,01,45,090,35,02,30,180,30").as_bytes()).unwrap();
    feed_sentence(&mut state, line("GPGSA,A,3,02,,,,,,,,,,,,2.0,1.2,1.6").as_bytes()).unwrap();
    let used: Vec<bool> = state.satellites().iter().map(|s| s.used).collect();
    assert_eq!(used, vec![false, true]);
    assert_eq!(state.fix_mode(), FixMode::Fix3D);
    assert_eq!(value(&state.dop().hdop), 1.2);
    // Without a GGA the used count is counted from the list.
    assert_eq!(state.sats_used_count(), 1);
    assert_eq!(state.sats_in_view_count(), 2);
}

#[test]
fn embedded_list_holds_at_most_64() {
    let mut state = EmbeddedState::new();
    for k in 0..20u16 {
        let s = |i: u16| Some(sat(k * 4 + i, GnssSystem::Gps, Some(30), false));
        let d = GsvData {
            system: GnssSystem::Gps,
            total_msgs: 20,
            msg_num: (k + 2) as u8,
            total_in_view: 80,
            sats: [s(0), s(1), s(2), s(3)],
        };
        state.update_gsv(d);
    }
    assert_eq!(state.satellites().len(), 64);
    assert_eq!(state.satellites()[63].svid, 63);
    assert_eq!(state.sats_in_view_count(), 64);
    // A first message drops the constellation's satellites before appending.
    let d = GsvData {
        system: GnssSystem::Gps,
        total_msgs: 1,
        msg_num: 1,
        total_in_view: 1,
        sats: [Some(sat(99, GnssSystem::Gps, None, false)), None, None, None],
    };
    state.update_gsv(d);
    assert_eq!(state.satellites().len(), 1);
    assert_eq!(state.satellites()[0].svid, 99);
}

#[test]
fn embedded_in_view_count_is_the_list_length() {
    let mut state = EmbeddedState::new();
    let d = GsvData {
        system: GnssSystem::Gps,
        total_msgs: 1,
        msg_num: 1,
        total_in_view: 2,
        sats: [Some(sat(1, GnssSystem::Gps, Some(30), false)), Some(sat(2, GnssSystem::Gps, None, false)), None, None],
    };
    state.update_gsv(d);
    feed_sentence(&mut state, line("GNGGA,073028.600,4000.00000,N,11600.00000,E,1,08,1.2,100.0,M,0.0,M,,").as_bytes())
        .unwrap();
    assert_eq!(state.gga().unwrap().sats_used, 8);
    assert_eq!(state.sats_in_view_count(), 2);
}

#[test]
fn embedded_gsa_marks_used() {
    let mut state = EmbeddedState::default();
    feed_sentence(&mut state, line("GLGSV,1,1,02,65,45,090,35,66,30,180,30").as_bytes()).unwrap();
    feed_sentence(&mut state, line("GLGSA,A,2,66,,,,,,,,,,,,2.0,1.2,1.6").as_bytes()).unwrap();
    let used: Vec<bool> = state.satellites().iter().map(|s| s.used).collect();
    assert_eq!(used, vec![false, true]);
    assert_eq!(state.fix_mode(), FixMode::Fix2D);
    assert_eq!(state.sats_used_count(), 1);
}

#[test]
fn snapshot_falls_back_to_rmc() {
    let mut state = EmbeddedState::new();
    feed_sentence(&mut state, line("GNRMC,120000.00,A,1230.0,N,00130.0,W,0.0,,010101,,,A").as_bytes()).unwrap();
    let (lat, lon) = snapshot_position(&state).unwrap();
    assert_eq!(degrees(lat), 12.5);
    assert_eq!(degrees(lon), -1.5);
    // A GGA without a fix gives no position; the RMC still does.
    feed_sentence(&mut state, line("GNGGA,120000.00,4000.0,N,11600.0,E,0,00,99.9,0.0,M,0.0,M,,").as_bytes()).unwrap();
    assert!(state.position().is_none());
    assert_eq!(degrees(snapshot_position(&state).unwrap().0), 12.5);
}

// ── Embedded session ─────────────────────────────────────────────────────────

#[test]
fn embedded_session_sends_commands_through_writer() {
    let mut sent: Vec<Vec<u8>> = Vec::new();
    {
        let mut session = EmbeddedSession::new(|b: &[u8]| sent.push(b.to_vec()));
        assert!(session.is_writable());
        session.save_config().unwrap();
        session.set_baud(BaudRate::B9600).unwrap();
        session.set_update_rate(UpdateRate::Hz10).unwrap();
        session.set_systems(ConstellationMask::GPS()).unwrap();
        session.restart(RestartMode::Hot).unwrap();
        session.query_info(InfoField::Firmware).unwrap();
        session.set_nmea_version(false).unwrap();
        let s = session.feed(line("GPTXT,01,01,01,ANTENNA SHORT").as_bytes());
        assert!(matches!(s, Some(ParsedSentence::Txt(_))));
        assert_eq!(session.state().antenna(), AntennaStatus::Short);
        session.state_mut().update_antenna(AntennaStatus::Good);
        assert_eq!(session.state().antenna(), AntennaStatus::Good);
    }
    let texts: Vec<String> = sent.iter().map(|b| String::from_utf8(b.clone()).unwrap()).collect();
    let systems_line = "$PCAS04,1*18\r\n".to_string();
    let expected: Vec<&str> = vec![
            "$PCAS00*01\r\n",
            "$PCAS01,1*1D\r\n",
            "$PCAS02,100*1E\r\n",
            systems_line.as_str(),
            "$PCAS10,0*1C\r\n",
            "$PCAS06,0*1B\r\n",
            "$PCAS05,5*1D\r\n",
    ];
    assert_eq!(texts, expected);
}

#[test]
fn power_levels() {
    assert!(Power::On.drives_high());
    assert!(!Power::Off.drives_high());
}

// ── Line assembly ────────────────────────────────────────────────────────────

#[test]
fn line_assembler_splits_and_drops_overlong_lines() {
    let mut assembler = LineAssembler::new(5);
    let mut lines: Vec<Vec<u8>> = Vec::new();
    for &b in b"ab\r\ncdefgh\nxy\n\n" {
        if let Some(l) = assembler.push(b) {
            lines.push(l);
        }
    }
    // "cdefgh" overflows at 'h': the partial line is dropped and "" then
    // ends at '\n'.
    assert_eq!(lines, vec![b"ab".to_vec(), b"".to_vec(), b"xy".to_vec(), b"".to_vec()]);
}

// ── Reading lines ────────────────────────────────────────────────────────────

#[test]
fn sentence_lines_are_trimmed_and_parsed() {
    assert!(sentence_line("\r\n").is_none());
    assert!(sentence_line("").is_none());
    let l = sentence_line("$PCAS00*01\r\n").unwrap();
    assert_eq!(l.raw, "$PCAS00*01");
    assert!(!l.is_valid());
    let g = sentence_line("$GNFOO,1,2,3*53\n").unwrap();
    assert!(g.parsed.is_err());
    let ok = sentence_line(&(line("GPTXT,01,01,01,ANTENNA OK") + "\r\n")).unwrap();
    assert!(ok.is_valid());
    let copy = ok.clone();
    assert_eq!(copy.raw, ok.raw);
    let reader = SentenceReader::new(vec![1u8, 2]);
    assert_eq!(reader.into_inner(), vec![1u8, 2]);
}

// ── Playback ─────────────────────────────────────────────────────────────────

#[test]
fn playback_seeks_clamp_and_wrap() {
    assert!(Playback::new(0).is_none());
    let mut p = Playback::new(100).unwrap();
    assert_eq!(p.advance(), 0);
    assert_eq!(p.current(), 1);
    let preview = p.seek(-60);
    assert_eq!(p.current(), 0);
    assert_eq!(preview, (0..12).collect::<Vec<usize>>());
    p.seek(seek_lines(2));
    assert_eq!(p.current(), 20);
    let preview = p.seek(95);
    assert_eq!(p.current(), 15);
    assert_eq!(preview[0], 15);
    let mut q = Playback::new(5).unwrap();
    let preview = q.seek(step_lines(1));
    assert_eq!(q.current(), 2);
    assert_eq!(preview, vec![2, 3, 4, 0, 1, 2, 3, 4, 0, 1, 2, 3]);
    q.advance();
    q.advance();
    q.advance();
    assert_eq!(q.current(), 0);
}

#[test]
fn sentence_type_names() {
    assert_eq!(SentenceType::Gsv.to_string(), "GSV");
    assert_eq!(FixMode::Fix3D.to_string(), "3D fix");
    assert_eq!(FixQuality::Sps.to_string(), "SPS fix");
    assert_eq!(AntennaStatus::Good.to_string(), "OK");
}

#[test]
fn parsed_sentence_accessors_pick_one_kind() {
    let gga = parse_sentence(
        line("GNGGA,073028.600,4000.00000,N,11600.00000,E,1,08,1.2,100.0,M,0.0,M,,").as_bytes(),
    )
    .unwrap();
    assert!(gga.has_position());
    assert_eq!(gga.kind(), SentenceType::Gga);
    assert!(gga.as_gga().is_some());
    assert!(gga.as_rmc().is_none() && gga.as_gsa().is_none() && gga.as_gsv().is_none());
    assert!(gga.as_vtg().is_none() && gga.as_zda().is_none());
    assert!(gga.as_gst().is_none() && gga.as_dhv().is_none());

    let rmc = parse_sentence(
        line("GNRMC,073028.600,A,4000.00000,N,11600.00000,E,0.00,0.00,090724,,,A,V").as_bytes(),
    )
    .unwrap();
    assert!(rmc.has_position());
    assert!(rmc.as_rmc().is_some() && rmc.as_gga().is_none());

    let zda = parse_sentence(line("GNZDA,073028.600,09,07,2024,00,00").as_bytes()).unwrap();
    assert!(!zda.has_position());
    assert_eq!(zda.as_zda().unwrap().date.year, 2024);
    assert!(zda.as_gga().is_none());
}

#[test]
fn fields_that_would_cut_a_character_are_refused() {
    assert!(NmeaTime::parse_field("1\u{e9}2345".as_bytes()).is_err());
    assert!(NmeaDate::parse_field("0\u{e9}0724".as_bytes()).is_err());
    assert_eq!(NmeaTime::parse_field(b"073028.600"), Ok(NmeaTime { hour: 7, minute: 30, second: 28, millis: 600 }));
    assert!(dx_gp21::types::parse_latlon("\u{e9}0.5".as_bytes(), b"N").is_none());
    assert!(dx_gp21::types::parse_latlon(b"4000.00000", b"N").is_some());
}

#[test]
fn time_fraction_is_read_as_milliseconds() {
    let ms = |s: &str| NmeaTime::parse_field(s.as_bytes()).unwrap().millis;
    assert_eq!(NmeaTime::parse_field(b"120000.50"), Ok(NmeaTime { hour: 12, minute: 0, second: 0, millis: 500 }));
    assert_eq!(ms("120000.5"), 500);
    assert_eq!(ms("120000.500"), 500);
    assert_eq!(ms("120000.05"), 50);
    assert_eq!(ms("120000.1234"), 123);
    assert_eq!(ms("120000.00"), 0);
    assert_eq!(ms("120000"), 0);
    assert_eq!(ms("120000.5x"), 0);
}

#[test]
fn checksum_round_trips_in_either_case() {
    assert_eq!(compute(b"PCAS04,7F"), 0x58);
    assert_eq!(compute(b"AB") , compute(b"A") ^ compute(b"B"));
    assert_eq!(compute(b"BA"), compute(b"AB"));
    let body: &[u8] = b"GNFOO,a*b,1";
    let cs = compute(body);
    for line in [
        format!("${}*{:02X}", "GNFOO,a*b,1", cs),
        format!("${}*{:02x}\r\n", "GNFOO,a*b,1", cs),
    ] {
        assert_eq!(verify(line.as_bytes()), Some(body));
    }
}
