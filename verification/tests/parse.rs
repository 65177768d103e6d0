use pac_back::model::AccessError;
use pac_back::model::ParseFailure;
use pac_back::parse;
use pac_back::parse_non_empty;

#[test]
fn test_reads_gpx() {
    let result = 2 + 2;
    assert_eq!(result, 4);
}

#[test]
fn it_works() {
    let result = 2 + 2;
    assert_eq!(result, 4);
}

#[test]
fn single_point_round_trip() {
    let doc = parse(b"<gpx><trk><trkseg><trkpt lat=\"45.0\" lon=\"-122.0\"/></trkseg></trk></gpx>")
        .unwrap();
    assert_eq!(doc.tracks.len(), 1);
    assert_eq!(doc.tracks[0].segments.len(), 1);
    assert_eq!(doc.tracks[0].segments[0].points.len(), 1);
    let p = &doc.tracks[0].segments[0].points[0];
    assert_eq!(p.lat_e9, 45_000_000_000);
    assert_eq!(p.lon_e9, -122_000_000_000);
    assert!(p.ele_e9.is_none());
    assert!(p.time.is_none());
}

#[test]
fn latitude_out_of_range_rejected() {
    let r = parse(b"<gpx><trk><trkseg><trkpt lat=\"95.0\" lon=\"0.0\"/></trkseg></trk></gpx>");
    assert_eq!(r.unwrap_err(), ParseFailure::InvalidCoordinate);
}

#[test]
fn random_binary_never_panics() {
    let r = parse(&[0xff, 0x00, 0x13, 0x37, 0xfe, 0x80, 0x3c]);
    match r {
        Err(ParseFailure::Malformed) | Err(ParseFailure::EncodingError) => {},
        other => panic!("unexpected result: {:?}", other),
    }
}

#[test]
fn empty_gpx_parses_to_empty_tracks() {
    let doc = parse(b"<gpx></gpx>").unwrap();
    assert_eq!(doc.tracks.len(), 0);
    assert_eq!(doc.first_track().unwrap_err(), AccessError::NoTracksPresent);
}

#[test]
fn self_closing_gpx_parses_to_empty_tracks() {
    let doc = parse(b"<gpx/>").unwrap();
    assert_eq!(doc.tracks.len(), 0);
}

#[test]
fn mismatched_tags_are_malformed() {
    assert_eq!(parse(b"<gpx><trk></gpx>").unwrap_err(), ParseFailure::Malformed);
}

#[test]
fn plain_text_is_malformed() {
    assert_eq!(parse(b"hello world").unwrap_err(), ParseFailure::Malformed);
}

#[test]
fn empty_input_is_malformed() {
    assert_eq!(parse(b"").unwrap_err(), ParseFailure::Malformed);
}

#[test]
fn wrong_root_element_is_malformed() {
    assert_eq!(parse(b"<kml></kml>").unwrap_err(), ParseFailure::Malformed);
}

#[test]
fn trailing_garbage_is_malformed() {
    assert_eq!(parse(b"<gpx></gpx>junk").unwrap_err(), ParseFailure::Malformed);
}

#[test]
fn invalid_utf8_is_encoding_error() {
    assert_eq!(parse(b"<gpx>\xff</gpx>").unwrap_err(), ParseFailure::EncodingError);
}

#[test]
fn one_bad_point_rejects_whole_document() {
    let r = parse(
        b"<gpx><trk><trkseg>\
          <trkpt lat=\"1.0\" lon=\"2.0\"/>\
          <trkpt lat=\"3.0\" lon=\"200.5\"/>\
          <trkpt lat=\"4.0\" lon=\"5.0\"/>\
          </trkseg></trk></gpx>",
    );
    assert_eq!(r.unwrap_err(), ParseFailure::InvalidCoordinate);
}

#[test]
fn missing_longitude_is_invalid_coordinate() {
    let r = parse(b"<gpx><trk><trkseg><trkpt lat=\"1.0\"/></trkseg></trk></gpx>");
    assert_eq!(r.unwrap_err(), ParseFailure::InvalidCoordinate);
}

#[test]
fn unparseable_latitude_is_invalid_coordinate() {
    let r = parse(b"<gpx><trk><trkseg><trkpt lat=\"abc\" lon=\"0.0\"/></trkseg></trk></gpx>");
    assert_eq!(r.unwrap_err(), ParseFailure::InvalidCoordinate);
}

#[test]
fn elevation_and_time_round_trip() {
    let doc = parse(
        b"<gpx><trk><trkseg><trkpt lat=\"-12.5\" lon=\"30.25\">\
          <ele>123.5</ele><time>2023-01-02T03:04:05Z</time>\
          </trkpt></trkseg></trk></gpx>",
    )
    .unwrap();
    let p = &doc.tracks[0].segments[0].points[0];
    assert_eq!(p.lat_e9, -12_500_000_000);
    assert_eq!(p.lon_e9, 30_250_000_000);
    assert_eq!(p.ele_e9, Some(123_500_000_000));
    let t = p.time.unwrap();
    assert_eq!(t.year, 2023);
    assert_eq!(t.month, 1);
    assert_eq!(t.day, 2);
    assert_eq!(t.hour, 3);
    assert_eq!(t.minute, 4);
    assert_eq!(t.second, 5);
    assert_eq!(t.nanos, 0);
    assert_eq!(t.offset_minutes, Some(0));
}

#[test]
fn fractional_seconds_and_offsets() {
    let doc = parse(
        b"<gpx><trk><trkseg><trkpt lat=\"0.0\" lon=\"0.0\">\
          <time>2020-02-29T23:59:59.25+02:00</time>\
          </trkpt></trkseg></trk></gpx>",
    )
    .unwrap();
    let t = doc.tracks[0].segments[0].points[0].time.unwrap();
    assert_eq!(t.day, 29);
    assert_eq!(t.nanos, 250_000_000);
    assert_eq!(t.offset_minutes, Some(120));

    let doc2 = parse(
        b"<gpx><trk><trkseg><trkpt lat=\"0.0\" lon=\"0.0\">\
          <time>2021-07-01T00:00:00-05:30</time>\
          </trkpt></trkseg></trk></gpx>",
    )
    .unwrap();
    let t2 = doc2.tracks[0].segments[0].points[0].time.unwrap();
    assert_eq!(t2.offset_minutes, Some(-330));

    let doc3 = parse(
        b"<gpx><trk><trkseg><trkpt lat=\"0.0\" lon=\"0.0\">\
          <time>2021-07-01T08:09:10</time>\
          </trkpt></trkseg></trk></gpx>",
    )
    .unwrap();
    let t3 = doc3.tracks[0].segments[0].points[0].time.unwrap();
    assert_eq!(t3.offset_minutes, None);
    assert_eq!(t3.hour, 8);
}

#[test]
fn bad_elevation_is_invalid_elevation() {
    let r = parse(
        b"<gpx><trk><trkseg><trkpt lat=\"0.0\" lon=\"0.0\">\
          <ele>12..3</ele></trkpt></trkseg></trk></gpx>",
    );
    assert_eq!(r.unwrap_err(), ParseFailure::InvalidElevation);
}

#[test]
fn bad_timestamp_is_invalid_timestamp() {
    let r = parse(
        b"<gpx><trk><trkseg><trkpt lat=\"0.0\" lon=\"0.0\">\
          <time>2021-02-30T00:00:00Z</time></trkpt></trkseg></trk></gpx>",
    );
    assert_eq!(r.unwrap_err(), ParseFailure::InvalidTimestamp);
}

#[test]
fn coordinate_boundaries() {
    assert!(parse(b"<gpx><trk><trkseg><trkpt lat=\"90.0\" lon=\"180.0\"/></trkseg></trk></gpx>")
        .is_ok());
    assert!(parse(b"<gpx><trk><trkseg><trkpt lat=\"-90.0\" lon=\"-180.0\"/></trkseg></trk></gpx>")
        .is_ok());
    assert_eq!(
        parse(b"<gpx><trk><trkseg><trkpt lat=\"90.000000001\" lon=\"0.0\"/></trkseg></trk></gpx>")
            .unwrap_err(),
        ParseFailure::InvalidCoordinate
    );
    assert_eq!(
        parse(b"<gpx><trk><trkseg><trkpt lat=\"0.0\" lon=\"-180.000000001\"/></trkseg></trk></gpx>")
            .unwrap_err(),
        ParseFailure::InvalidCoordinate
    );
}

#[test]
fn fraction_digits_beyond_ninth_truncate() {
    let doc = parse(
        b"<gpx><trk><trkseg><trkpt lat=\"1.0000000009\" lon=\"0.1234567891\"/></trkseg></trk></gpx>",
    )
    .unwrap();
    let p = &doc.tracks[0].segments[0].points[0];
    assert_eq!(p.lat_e9, 1_000_000_000);
    assert_eq!(p.lon_e9, 123_456_789);
}

#[test]
fn prolog_comments_and_whitespace_accepted() {
    let doc = parse(
        b"<?xml version=\"1.0\" encoding=\"UTF-8\"?>\n\
          <!-- recorded yesterday -->\n\
          <gpx version=\"1.1\" creator=\"unit\">\n\
            <trk><trkseg>\n\
              <trkpt lat=\"1.5\" lon=\"2.5\"></trkpt>\n\
            </trkseg></trk>\n\
          </gpx>\n",
    )
    .unwrap();
    assert_eq!(doc.tracks[0].segments[0].points[0].lat_e9, 1_500_000_000);
}

#[test]
fn unknown_elements_are_skipped() {
    let doc = parse(
        b"<gpx><wpt lat=\"1\" lon=\"2\"><name>spot</name></wpt>\
          <trk><number>7</number><trkseg>\
          <trkpt lat=\"3.0\" lon=\"4.0\"><sat>5</sat></trkpt>\
          </trkseg></trk><extensions/></gpx>",
    )
    .unwrap();
    assert_eq!(doc.tracks.len(), 1);
    assert_eq!(doc.tracks[0].segments[0].points.len(), 1);
    assert_eq!(doc.tracks[0].segments[0].points[0].lat_e9, 3_000_000_000);
}

#[test]
fn metadata_and_track_names_captured() {
    let doc = parse(
        b"<gpx><metadata><name>morning ride</name>\
          <time>2023-05-06T07:08:09Z</time></metadata>\
          <trk><name>loop one</name><trkseg/></trk></gpx>",
    )
    .unwrap();
    assert_eq!(doc.name.as_deref(), Some(b"morning ride".as_slice()));
    assert_eq!(doc.time.as_deref(), Some(b"2023-05-06T07:08:09Z".as_slice()));
    assert_eq!(doc.tracks[0].name.as_deref(), Some(b"loop one".as_slice()));
    assert_eq!(doc.tracks[0].segments.len(), 1);
    assert_eq!(doc.tracks[0].segments[0].points.len(), 0);
}

#[test]
fn accessors_report_missing_parts() {
    let doc = parse(b"<gpx><trk></trk></gpx>").unwrap();
    let track = doc.first_track().unwrap();
    assert_eq!(track.first_segment().unwrap_err(), AccessError::NoSegmentsPresent);
    assert_eq!(doc.first_track_segment().unwrap_err(), AccessError::NoSegmentsPresent);

    let empty = parse(b"<gpx></gpx>").unwrap();
    assert_eq!(empty.first_track_segment().unwrap_err(), AccessError::NoTracksPresent);

    let full = parse(b"<gpx><trk><trkseg><trkpt lat=\"1.0\" lon=\"2.0\"/></trkseg></trk></gpx>")
        .unwrap();
    let seg = full.first_track_segment().unwrap();
    let p = seg.first_point().unwrap();
    assert_eq!(p.lat_e9, 1_000_000_000);

    let trackless_seg = parse(b"<gpx><trk><trkseg/></trk></gpx>").unwrap();
    let seg2 = trackless_seg.first_track_segment().unwrap();
    assert!(seg2.first_point().is_none());
}

#[test]
fn parse_non_empty_rejects_trackless_documents() {
    assert_eq!(parse_non_empty(b"<gpx></gpx>").unwrap_err(), ParseFailure::EmptyDocument);
    assert!(parse_non_empty(b"<gpx><trk/></gpx>").is_ok());
    assert_eq!(parse_non_empty(b"not xml").unwrap_err(), ParseFailure::Malformed);
}

#[test]
fn attribute_quoting_and_whitespace() {
    let doc = parse(
        b"<gpx><trk><trkseg><trkpt lat = '7.25' lon= \"-3.5\" ></trkpt></trkseg></trk></gpx>",
    )
    .unwrap();
    let p = &doc.tracks[0].segments[0].points[0];
    assert_eq!(p.lat_e9, 7_250_000_000);
    assert_eq!(p.lon_e9, -3_500_000_000);
}
