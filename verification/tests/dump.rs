use mediawiki_dump::{
    find_page, parse, parse_from_file, select_compression, BoundedCollector, Comment, Compression,
    Contributor, Error, IpAddr, Outcome, Page, PageCollector, PageConsumer, Tag, Timestamp,
};

/// A consumer that collects pages and can stop early or fail.
struct Driver {
    pages: Vec<Page>,
    stop_after: Option<usize>,
    fail_after: Option<usize>,
}

impl Driver {
    fn new() -> Driver {
        Driver { pages: Vec::new(), stop_after: None, fail_after: None }
    }
}

impl PageConsumer<String> for Driver {
    fn consume(&mut self, page: Page) -> Outcome<String> {
        self.pages.push(page);
        if let Some(n) = self.fail_after {
            if self.pages.len() >= n {
                return Outcome::Fail(String::from("consumer gave up"));
            }
        }
        if let Some(n) = self.stop_after {
            if self.pages.len() >= n {
                return Outcome::Stop;
            }
        }
        Outcome::Continue
    }
}

fn revision_xml(id: u32) -> String {
    format!(
        "<revision> <id>{}</id> <parentid>9</parentid> \
         <timestamp>2001-01-15T13:15:00Z</timestamp> \
         <contributor> <username>Bob</username> <id>7</id> </contributor> \
         <minor /> <origin>{}</origin> <comment>first edit</comment> \
         <model>wikitext</model> <format>text/x-wiki</format> \
         <text>Hello &amp; goodbye</text> <sha1>phoiac9h</sha1> </revision>",
        id, id
    )
}

fn page_xml(title: &str, id: u32) -> String {
    format!(
        "<page> <title>{}</title> <ns>0</ns> <id>{}</id> {} </page>",
        title,
        id,
        revision_xml(id * 10)
    )
}

fn dump_xml(pages: &[String]) -> String {
    let mut s = String::from(
        "<mediawiki> <siteinfo> <sitename>Example</sitename> <dbname>xx</dbname> </siteinfo> ",
    );
    for p in pages {
        s.push_str(p);
        s.push(' ');
    }
    s.push_str("</mediawiki>");
    s
}

#[test]
fn round_trip_minimal_page() {
    let dump = dump_xml(&[page_xml("Alpha", 1)]);
    let mut c = Driver::new();
    let r = parse(dump.as_bytes(), &mut c, true);
    assert!(r.is_ok());
    assert_eq!(c.pages.len(), 1);
    let p = &c.pages[0];
    assert_eq!(p.title, "Alpha");
    assert_eq!(p.namespace, 0);
    assert_eq!(p.id, 1);
    assert_eq!(p.redirect_target, None);
    assert_eq!(p.restrictions, None);
    assert_eq!(p.revisions.len(), 1);
    let r = &p.revisions[0];
    assert_eq!(r.id, 10);
    assert_eq!(r.parent_id, Some(9));
    let want: chrono::DateTime<chrono::Utc> = "2001-01-15T13:15:00Z".parse().unwrap();
    assert_eq!(r.timestamp, Timestamp { secs: want.timestamp(), nanos: 0 });
    assert_eq!(r.contributor, Contributor::User { username: String::from("Bob"), id: 7 });
    assert_eq!(r.minor, true);
    assert_eq!(r.origin, Some(10));
    assert_eq!(r.comment, Comment::Visible(String::from("first edit")));
    assert_eq!(r.model, "wikitext");
    assert_eq!(r.format, "text/x-wiki");
    assert_eq!(r.text, "Hello & goodbye");
    assert_eq!(r.sha1, "phoiac9h");
}

#[test]
fn fault_is_local_to_the_broken_spot() {
    // a dump cut off in the middle of a tag: the fault offset lies between
    // the last valid token boundary and the end of the input
    let good = "<page> <title>Alpha</title>";
    let cut = &good[..good.len() - 4];
    let boundary = "<page> <title>Alpha".len();
    let mut c = Driver::new();
    let r = parse(cut.as_bytes(), &mut c, false);
    match r {
        Err(Error::Format { position }) => {
            assert!(position >= boundary);
            assert!(position <= cut.len());
        },
        other => panic!("expected a format fault, got {:?}", other),
    }
}

#[test]
fn contributor_suppressed_decodes_to_deleted() {
    let page = "<page> <title>A</title> <ns>0</ns> <id>1</id> <revision> <id>10</id> \
                <timestamp>2001-01-15T13:15:00Z</timestamp> \
                <contributor deleted=\"deleted\" /> \
                <model>wikitext</model> <format>x</format> <text>t</text> <sha1>s</sha1> \
                </revision> </page>";
    let dump = dump_xml(&[String::from(page)]);
    let mut c = Driver::new();
    parse(dump.as_bytes(), &mut c, true).unwrap();
    assert_eq!(c.pages[0].revisions[0].contributor, Contributor::Deleted);
    // the comment was absent entirely
    assert_eq!(c.pages[0].revisions[0].comment, Comment::DeletedOrAbsent(false));
    assert_eq!(c.pages[0].revisions[0].minor, false);
    assert_eq!(c.pages[0].revisions[0].origin, None);
}

#[test]
fn contributor_with_other_attribute_is_a_fault() {
    let page = "<page> <title>A</title> <ns>0</ns> <id>1</id> <revision> <id>10</id> \
                <timestamp>2001-01-15T13:15:00Z</timestamp> \
                <contributor hidden=\"deleted\" /> \
                <model>wikitext</model> <format>x</format> <text>t</text> <sha1>s</sha1> \
                </revision> </page>";
    let dump = dump_xml(&[String::from(page)]);
    let mut c = Driver::new();
    let r = parse(dump.as_bytes(), &mut c, true);
    assert!(matches!(r, Err(Error::Format { .. })));
}

#[test]
fn contributor_with_child_content_is_a_fault() {
    let page = "<page> <title>A</title> <ns>0</ns> <id>1</id> <revision> <id>10</id> \
                <timestamp>2001-01-15T13:15:00Z</timestamp> \
                <contributor> <size>3</size> </contributor> \
                <model>wikitext</model> <format>x</format> <text>t</text> <sha1>s</sha1> \
                </revision> </page>";
    let dump = dump_xml(&[String::from(page)]);
    let mut c = Driver::new();
    let r = parse(dump.as_bytes(), &mut c, true);
    assert!(matches!(r, Err(Error::Format { .. })));
}

#[test]
fn comment_suppressed_and_anonymous_contributor() {
    let page = "<page> <title>A</title> <ns>0</ns> <id>1</id> <revision> <id>10</id> \
                <timestamp>2001-01-15T13:15:00Z</timestamp> \
                <contributor> <ip>127.0.0.1</ip> </contributor> \
                <comment deleted=\"deleted\" /> \
                <model>wikitext</model> <format>x</format> <text>t</text> <sha1>s</sha1> \
                </revision> </page>";
    let dump = dump_xml(&[String::from(page)]);
    let mut c = Driver::new();
    parse(dump.as_bytes(), &mut c, true).unwrap();
    let r = &c.pages[0].revisions[0];
    assert_eq!(r.contributor, Contributor::Ip { ip: IpAddr::V4 { a: 127, b: 0, c: 0, d: 1 } });
    assert_eq!(r.comment, Comment::DeletedOrAbsent(true));
}

#[test]
fn ipv6_contributor_address() {
    let page = "<page> <title>A</title> <ns>0</ns> <id>1</id> <revision> <id>10</id> \
                <timestamp>2001-01-15T13:15:00Z</timestamp> \
                <contributor> <ip>2001:db8::7</ip> </contributor> \
                <model>wikitext</model> <format>x</format> <text>t</text> <sha1>s</sha1> \
                </revision> </page>";
    let dump = dump_xml(&[String::from(page)]);
    let mut c = Driver::new();
    parse(dump.as_bytes(), &mut c, true).unwrap();
    let r = &c.pages[0].revisions[0];
    assert_eq!(
        r.contributor,
        Contributor::Ip {
            ip: IpAddr::V6 { g0: 0x2001, g1: 0xdb8, g2: 0, g3: 0, g4: 0, g5: 0, g6: 0, g7: 7 },
        },
    );
}

#[test]
fn invalid_ip_is_a_fault() {
    let page = "<page> <title>A</title> <ns>0</ns> <id>1</id> <revision> <id>10</id> \
                <timestamp>2001-01-15T13:15:00Z</timestamp> \
                <contributor> <ip>127.0.0.256</ip> </contributor> \
                <model>wikitext</model> <format>x</format> <text>t</text> <sha1>s</sha1> \
                </revision> </page>";
    let dump = dump_xml(&[String::from(page)]);
    let mut c = Driver::new();
    assert!(matches!(parse(dump.as_bytes(), &mut c, true), Err(Error::Format { .. })));
}

#[test]
fn redirect_and_restrictions_fields() {
    let page = format!(
        "<page> <title>A</title> <ns>0</ns> <id>1</id> \
         <redirect title=\"Foo\" /> <restrictions>sysop</restrictions> {} </page>",
        revision_xml(10)
    );
    let dump = dump_xml(&[page]);
    let mut c = Driver::new();
    parse(dump.as_bytes(), &mut c, true).unwrap();
    let p = &c.pages[0];
    assert_eq!(p.redirect_target, Some(String::from("Foo")));
    assert_eq!(p.restrictions, Some(String::from("sysop")));
    assert_eq!(p.revisions.len(), 1);
}

#[test]
fn empty_text_element() {
    let page = "<page> <title>A</title> <ns>0</ns> <id>1</id> <revision> <id>10</id> \
                <timestamp>2001-01-15T13:15:00Z</timestamp> \
                <contributor> <username>B</username> <id>1</id> </contributor> \
                <model>wikitext</model> <format>x</format> <text /> <sha1>s</sha1> \
                </revision> </page>";
    let dump = dump_xml(&[String::from(page)]);
    let mut c = Driver::new();
    parse(dump.as_bytes(), &mut c, true).unwrap();
    assert_eq!(c.pages[0].revisions[0].text, "");
}

#[test]
fn unexpected_tag_is_reported_with_its_name() {
    let page = "<page> <bogus>A</bogus> <ns>0</ns> <id>1</id> </page>";
    let dump = dump_xml(&[String::from(page)]);
    let mut c = Driver::new();
    match parse(dump.as_bytes(), &mut c, true) {
        Err(Error::UnexpectedTag(name)) => assert_eq!(name, b"bogus".to_vec()),
        other => panic!("expected an unrecognized tag, got {:?}", other),
    }
}

#[test]
fn tag_mismatch_is_reported_with_both_tags() {
    let page = "<page> <ns>0</ns> <title>A</title> <id>1</id> </page>";
    let dump = dump_xml(&[String::from(page)]);
    let mut c = Driver::new();
    match parse(dump.as_bytes(), &mut c, true) {
        Err(Error::Tag { expected, actual, .. }) => {
            assert_eq!(expected, Tag::Title);
            assert_eq!(actual, Tag::Ns);
        },
        other => panic!("expected a tag mismatch, got {:?}", other),
    }
}

#[test]
fn undecodable_entity_is_a_decode_fault() {
    let page = "<page> <title>A</title> <ns>0</ns> <id>1</id> <revision> <id>10</id> \
                <timestamp>2001-01-15T13:15:00Z</timestamp> \
                <contributor> <username>B</username> <id>1</id> </contributor> \
                <model>wikitext</model> <format>x</format> <text>&bogus;</text> <sha1>s</sha1> \
                </revision> </page>";
    let dump = dump_xml(&[String::from(page)]);
    let mut c = Driver::new();
    assert!(matches!(parse(dump.as_bytes(), &mut c, true), Err(Error::FailedToDecode { .. })));
}

#[test]
fn missing_text_run_between_elements_is_a_fault() {
    let dump = "<mediawiki> <page><title>A</title> <ns>0</ns> <id>1</id> </page> </mediawiki>";
    let mut c = Driver::new();
    // no text run between <page> and <title>
    assert!(matches!(parse(dump.as_bytes(), &mut c, false), Err(Error::Format { .. })));
}

#[test]
fn numeric_edges_sign_and_overflow() {
    let dump = dump_xml(&[format!(
        "<page> <title>A</title> <ns>-2</ns> <id>+12</id> {} </page>",
        revision_xml(10)
    )]);
    let mut c = Driver::new();
    parse(dump.as_bytes(), &mut c, true).unwrap();
    assert_eq!(c.pages[0].namespace, -2);
    assert_eq!(c.pages[0].id, 12);
    let over = dump_xml(&[format!(
        "<page> <title>A</title> <ns>0</ns> <id>4294967296</id> {} </page>",
        revision_xml(10)
    )]);
    let mut c2 = Driver::new();
    assert!(matches!(parse(over.as_bytes(), &mut c2, true), Err(Error::Format { .. })));
}

#[test]
fn zero_page_dump_invokes_consumer_zero_times() {
    let dump = dump_xml(&[]);
    let mut c = Driver::new();
    assert!(parse(dump.as_bytes(), &mut c, true).is_ok());
    assert_eq!(c.pages.len(), 0);
}

#[test]
fn n_page_dump_invokes_consumer_n_times() {
    let dump = dump_xml(&[page_xml("A", 1), page_xml("B", 2), page_xml("C", 3)]);
    let mut c = Driver::new();
    assert!(parse(dump.as_bytes(), &mut c, true).is_ok());
    assert_eq!(c.pages.len(), 3);
    assert_eq!(c.pages[1].title, "B");
}

#[test]
fn early_stop_at_k_invokes_consumer_k_times_and_succeeds() {
    let dump = dump_xml(&[page_xml("A", 1), page_xml("B", 2), page_xml("C", 3)]);
    let mut c = Driver::new();
    c.stop_after = Some(2);
    assert!(parse(dump.as_bytes(), &mut c, true).is_ok());
    assert_eq!(c.pages.len(), 2);
}

#[test]
fn consumer_error_passes_through_verbatim() {
    let dump = dump_xml(&[page_xml("A", 1), page_xml("B", 2)]);
    let mut c = Driver::new();
    c.fail_after = Some(1);
    match parse(dump.as_bytes(), &mut c, true) {
        Err(Error::Other(msg)) => assert_eq!(msg, "consumer gave up"),
        other => panic!("expected the consumer's own error, got {:?}", other),
    }
    assert_eq!(c.pages.len(), 1);
}

#[test]
fn page_collector_collects_everything() {
    let dump = dump_xml(&[page_xml("A", 1), page_xml("B", 2)]);
    let mut c = PageCollector::new();
    assert!(parse(dump.as_bytes(), &mut c, true).is_ok());
    assert_eq!(c.pages.len(), 2);
}

#[test]
fn find_page_picks_the_exact_title() {
    let dump = dump_xml(&[page_xml("A", 1), page_xml("A&amp;B", 2), page_xml("A&amp;B&amp;C", 3)]);
    let found = find_page("A&B", dump.as_bytes()).unwrap();
    let p = found.expect("the page should be found");
    assert_eq!(p.title, "A&B");
    assert_eq!(p.id, 2);
    let missing = find_page("A&B&C&D", dump.as_bytes()).unwrap();
    assert!(missing.is_none());
}

#[test]
fn extension_selects_the_decompressor() {
    assert_eq!(select_compression("dump.xml.bz2"), Compression::Bzip2);
    assert_eq!(select_compression("dump.xml.7z"), Compression::Lzma);
    assert_eq!(select_compression("dump.xml"), Compression::Plain);
    assert_eq!(select_compression("dump.bz2.xml"), Compression::Plain);
}

#[test]
fn corrupt_lzma_header_surfaces_decompression_init() {
    let garbage = b"this is not an lzma stream at all";
    let mut c = Driver::new();
    match parse_from_file("broken.7z", garbage, &mut c, true) {
        Err(Error::DecompressionInit { path, .. }) => assert_eq!(path, "broken.7z"),
        other => panic!("expected a decompression fault, got {:?}", other),
    }
    assert_eq!(c.pages.len(), 0);
}

#[test]
fn bzip2_round_trip_through_the_selector() {
    let dump = dump_xml(&[page_xml("Packed", 5)]);
    let mut enc = bzip2::read::BzEncoder::new(dump.as_bytes(), bzip2::Compression::best());
    let mut packed: Vec<u8> = Vec::new();
    std::io::Read::read_to_end(&mut enc, &mut packed).unwrap();
    let mut c = Driver::new();
    parse_from_file("dump.xml.bz2", &packed, &mut c, true).unwrap();
    assert_eq!(c.pages.len(), 1);
    assert_eq!(c.pages[0].title, "Packed");
}

#[test]
fn to_infallible_splits_off_the_consumer_error() {
    let e: Error<String> = Error::Other(String::from("mine"));
    assert_eq!(Error::to_infallible(e), Err(String::from("mine")));
    let e2: Error<String> = Error::Format { position: 4 };
    assert_eq!(Error::to_infallible(e2), Ok(Error::Format { position: 4 }));
}

#[test]
fn tag_registry_round_trips_names() {
    assert_eq!(Tag::resolve(b"mediawiki"), Some(Tag::MediaWiki));
    assert_eq!(Tag::resolve(b"ThreadID"), Some(Tag::ThreadId));
    assert_eq!(Tag::resolve(b"threadid"), None);
    assert_eq!(Tag::resolve(b"parentid "), Some(Tag::ParentId));
    assert_eq!(Tag::MediaWiki.as_str(), "mediawiki");
    assert_eq!(Tag::ThreadId.as_str(), "ThreadID");
}

#[test]
fn header_without_siteinfo_is_accepted() {
    let dump = format!("<mediawiki> {} </mediawiki>", page_xml("Solo", 4));
    let mut c = Driver::new();
    parse(dump.as_bytes(), &mut c, true).unwrap();
    assert_eq!(c.pages.len(), 1);
    assert_eq!(c.pages[0].title, "Solo");
}

#[test]
fn bytes_after_the_dump_end_are_never_reached() {
    // the decoder stops at the closing tag; malformed bytes after it are
    // only surfaced if parsing actually reads that far
    let mut dump = dump_xml(&[page_xml("A", 1)]);
    dump.push_str(" <<<");
    let mut c = Driver::new();
    assert!(parse(dump.as_bytes(), &mut c, true).is_ok());
    assert_eq!(c.pages.len(), 1);
}

#[test]
fn restrictions_page_still_requires_a_revision() {
    // the revision sequence may legally be non-empty only: a page that
    // closes right after its restrictions element is a grammar fault
    let page = "<page> <title>A</title> <ns>0</ns> <id>1</id> \
                <restrictions>sysop</restrictions> </page>";
    let dump = dump_xml(&[String::from(page)]);
    let mut c = Driver::new();
    assert!(matches!(parse(dump.as_bytes(), &mut c, true), Err(Error::Format { .. })));
    assert_eq!(c.pages.len(), 0);
}

#[test]
fn bare_page_requires_at_least_one_revision() {
    // without restrictions the token after the ids must open a revision
    let page = "<page> <title>A</title> <ns>0</ns> <id>1</id> </page>";
    let dump = dump_xml(&[String::from(page)]);
    let mut c = Driver::new();
    assert!(matches!(parse(dump.as_bytes(), &mut c, true), Err(Error::Format { .. })));
}

#[test]
fn unicode_titles_round_trip_and_locate() {
    let dump = dump_xml(&[page_xml("Citro\u{eb}n", 1), page_xml("\u{17b}\u{f3}\u{142}w", 2)]);
    let mut c = Driver::new();
    parse(dump.as_bytes(), &mut c, true).unwrap();
    assert_eq!(c.pages[0].title, "Citro\u{eb}n");
    assert_eq!(c.pages[1].title, "\u{17b}\u{f3}\u{142}w");
    let found = find_page("\u{17b}\u{f3}\u{142}w", dump.as_bytes()).unwrap().unwrap();
    assert_eq!(found.id, 2);
}

#[test]
fn contributor_marker_with_extra_attribute_is_a_fault() {
    // the suppression marker must be the single attribute
    let page = "<page> <title>A</title> <ns>0</ns> <id>1</id> <revision> <id>10</id> \
                <timestamp>2001-01-15T13:15:00Z</timestamp> \
                <contributor deleted=\"deleted\" extra=\"x\" /> \
                <model>wikitext</model> <format>x</format> <text>t</text> <sha1>s</sha1> \
                </revision> </page>";
    let dump = dump_xml(&[String::from(page)]);
    let mut c = Driver::new();
    assert!(matches!(parse(dump.as_bytes(), &mut c, true), Err(Error::Format { .. })));
}

#[test]
fn bounded_collector_stops_at_its_limit() {
    let dump = dump_xml(&[page_xml("A", 1), page_xml("B", 2), page_xml("C", 3)]);
    let mut c = BoundedCollector::new(2);
    assert!(parse(dump.as_bytes(), &mut c, true).is_ok());
    assert_eq!(c.pages.len(), 2);
    assert_eq!(c.pages[1].title, "B");
}
