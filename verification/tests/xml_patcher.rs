use virtctl::xml_codec::{edit_xml_text, read_events, write_events};
use virtctl::xml_model::{is_space, EventKind, XmlEvent};
use virtctl::xml_patch::patch_events;

fn ev(kind: EventKind, content: &str) -> XmlEvent {
    XmlEvent::new(kind, content)
}

#[test]
fn inserts_missing_description_as_last_child() {
    let input = String::from("<domainsnapshot><name>snap1</name></domainsnapshot>");
    let out = edit_xml_text(&input, "description", "hello", 1).unwrap();
    assert_eq!(
        out,
        "<domainsnapshot>\n  <name>snap1</name>\n  <description>hello</description>\n</domainsnapshot>"
    );
}

#[test]
fn replaces_text_of_existing_description_only() {
    let input = String::from(
        "<domainsnapshot><name>snap1</name><description>old</description><state>running</state></domainsnapshot>",
    );
    let out = edit_xml_text(&input, "description", "new", 1).unwrap();
    assert_eq!(
        out,
        "<domainsnapshot>\n  <name>snap1</name>\n  <description>new</description>\n  <state>running</state>\n</domainsnapshot>"
    );
}

#[test]
fn siblings_are_unchanged_by_a_replace() {
    let input = String::from(
        "<domainsnapshot><name>snap1</name><description>old</description><state>running</state></domainsnapshot>",
    );
    let before = read_events(&input).unwrap();
    let after = read_events(&edit_xml_text(&input, "description", "new", 1).unwrap()).unwrap();
    assert_eq!(before.len(), after.len());
    for i in 0..before.len() {
        if i == 5 {
            assert_eq!(before[i], ev(EventKind::Text, "old"));
            assert_eq!(after[i], ev(EventKind::Text, "new"));
        } else {
            assert_eq!(before[i], after[i]);
        }
    }
}

#[test]
fn patching_twice_gives_the_same_document() {
    let input = String::from("<domainsnapshot><name>snap1</name></domainsnapshot>");
    let once = edit_xml_text(&input, "description", "a note", 1).unwrap();
    let twice = edit_xml_text(&once, "description", "a note", 1).unwrap();
    assert_eq!(once, twice);
    let renamed = edit_xml_text(&once, "name", "snap2", 1).unwrap();
    assert_eq!(edit_xml_text(&renamed, "name", "snap2", 1).unwrap(), renamed);
}

#[test]
fn new_text_is_escaped() {
    let input = String::from("<s><description>x</description></s>");
    let out = edit_xml_text(&input, "description", "a<b & \"c\"", 1).unwrap();
    assert_eq!(out, "<s>\n  <description>a&lt;b &amp; &quot;c&quot;</description>\n</s>");
    let out = edit_xml_text(&input, "description", "it's > é", 1).unwrap();
    assert_eq!(out, "<s>\n  <description>it&apos;s &gt; é</description>\n</s>");
}

#[test]
fn element_of_the_same_name_further_down_does_not_count() {
    let input =
        String::from("<s><domain><description>inner</description></domain></s>");
    let out = edit_xml_text(&input, "description", "outer", 1).unwrap();
    assert_eq!(
        out,
        "<s>\n  <domain>\n    <description>inner</description>\n  </domain>\n  <description>outer</description>\n</s>"
    );
}

#[test]
fn attributes_and_empty_elements_pass_through() {
    let input = String::from("<s id='1'><disk name=\"vda\"/><name>n</name></s>");
    let out = edit_xml_text(&input, "name", "m", 1).unwrap();
    assert_eq!(out, "<s id='1'>\n  <disk name=\"vda\"/>\n  <name>m</name>\n</s>");
}

#[test]
fn malformed_document_is_refused() {
    assert_eq!(edit_xml_text(&String::from("<a><b></a>"), "name", "x", 1), None);
    assert_eq!(read_events("<a></b>"), None);
}

#[test]
fn reading_gives_kind_and_content() {
    let events = read_events("<?xml version=\"1.0\"?><a x=\"1\"> hi <!--c--><b/></a>").unwrap();
    assert_eq!(
        events,
        vec![
            ev(EventKind::Decl, "xml version=\"1.0\""),
            ev(EventKind::Start, "a x=\"1\""),
            ev(EventKind::Text, "hi"),
            ev(EventKind::Comment, "c"),
            ev(EventKind::Empty, "b"),
            ev(EventKind::End, "a"),
        ]
    );
}

#[test]
fn writing_indents_by_two_spaces() {
    let events = vec![
        ev(EventKind::Start, "a"),
        ev(EventKind::Start, "b"),
        ev(EventKind::Text, "t"),
        ev(EventKind::End, "b"),
        ev(EventKind::End, "a"),
    ];
    assert_eq!(write_events(&events), "<a>\n  <b>t</b>\n</a>");
    assert_eq!(write_events(&Vec::new()), "");
}

#[test]
fn patch_events_inserts_before_the_closing_tag() {
    let events = vec![ev(EventKind::Start, "root"), ev(EventKind::End, "root")];
    let out = patch_events(&events, "description", "d", 1);
    assert_eq!(
        out,
        vec![
            ev(EventKind::Start, "root"),
            ev(EventKind::Start, "description"),
            ev(EventKind::Text, "d"),
            ev(EventKind::End, "description"),
            ev(EventKind::End, "root"),
        ]
    );
}

#[test]
fn patch_events_puts_the_text_first_in_the_target() {
    let events = vec![
        ev(EventKind::Start, "root"),
        ev(EventKind::Text, "loose"),
        ev(EventKind::Start, "name kind=\"x\""),
        ev(EventKind::Text, "one"),
        ev(EventKind::Empty, "br"),
        ev(EventKind::Text, "two"),
        ev(EventKind::End, "name"),
        ev(EventKind::End, "root"),
    ];
    let out = patch_events(&events, "name", "N", 1);
    assert_eq!(
        out,
        vec![
            ev(EventKind::Start, "root"),
            ev(EventKind::Text, "loose"),
            ev(EventKind::Start, "name kind=\"x\""),
            ev(EventKind::Text, "N"),
            ev(EventKind::Empty, "br"),
            ev(EventKind::End, "name"),
            ev(EventKind::End, "root"),
        ]
    );
}

#[test]
fn patch_events_at_depth_zero_or_below_leaves_a_document_alone() {
    let events = vec![ev(EventKind::Start, "root"), ev(EventKind::End, "root")];
    assert_eq!(patch_events(&events, "x", "t", 5), events);
    assert_eq!(patch_events(&events, "x", "t", -1), events);
    assert_eq!(patch_events(&Vec::new(), "x", "t", 1), Vec::new());
}

#[test]
fn opens_compares_the_name_before_the_first_space() {
    assert!(ev(EventKind::Start, "name").opens("name"));
    assert!(ev(EventKind::Start, "name a='1'").opens("name"));
    assert!(ev(EventKind::Start, "name\ta='1'").opens("name"));
    assert!(!ev(EventKind::Start, "names").opens("name"));
    assert!(!ev(EventKind::Start, "nam").opens("name"));
    assert!(!ev(EventKind::End, "name").opens("name"));
    assert!(ev(EventKind::Start, "").opens(""));
}

#[test]
fn xml_space_is_blank_tab_or_line_end() {
    assert!(is_space(' ') && is_space('\t') && is_space('\n') && is_space('\r'));
    assert!(!is_space('a') && !is_space('\u{a0}'));
}

#[test]
fn an_element_without_text_gets_the_text() {
    let input = String::from("<a><description></description></a>");
    let out = edit_xml_text(&input, "description", "t", 1).unwrap();
    assert_eq!(out, "<a>\n  <description>t</description>\n</a>");
    assert_eq!(edit_xml_text(&out, "description", "t", 1).unwrap(), out);
}

#[test]
fn a_self_closing_child_gets_the_text() {
    let input = String::from("<a><description/></a>");
    let out = edit_xml_text(&input, "description", "t", 1).unwrap();
    assert_eq!(out, "<a>\n  <description>t</description>\n</a>");
    let input = String::from("<a><description lang='en' /><state/></a>");
    let out = edit_xml_text(&input, "description", "t", 1).unwrap();
    assert_eq!(out, "<a>\n  <description lang='en' >t</description>\n  <state/>\n</a>");
    assert_eq!(edit_xml_text(&out, "description", "t", 1).unwrap(), out);
}

#[test]
fn patching_twice_with_an_empty_or_blank_text() {
    let input = String::from("<s><name>n</name></s>");
    let once = edit_xml_text(&input, "description", "", 1).unwrap();
    assert_eq!(once, "<s>\n  <name>n</name>\n  <description></description>\n</s>");
    assert_eq!(edit_xml_text(&once, "description", "", 1).unwrap(), once);
    let blank = edit_xml_text(&input, "description", "  ", 1).unwrap();
    assert_eq!(blank, "<s>\n  <name>n</name>\n  <description>  </description>\n</s>");
    assert_eq!(edit_xml_text(&blank, "description", "  ", 1).unwrap(), blank);
    let padded = edit_xml_text(&input, "description", " a note\n", 1).unwrap();
    assert_eq!(padded, "<s>\n  <name>n</name>\n  <description> a note\n</description>\n</s>");
    assert_eq!(edit_xml_text(&padded, "description", " a note\n", 1).unwrap(), padded);
}

#[test]
fn patching_twice_where_the_child_holds_more_than_text() {
    let input = String::from("<s><d>x<br/>y<![CDATA[z]]></d></s>");
    for text in ["", " ", "new"] {
        let once = edit_xml_text(&input, "d", text, 1).unwrap();
        assert_eq!(edit_xml_text(&once, "d", text, 1).unwrap(), once);
    }
    assert_eq!(edit_xml_text(&input, "d", "new", 1).unwrap(), "<s>\n  <d>new<br/>\n  </d>\n</s>");
}

#[test]
fn every_element_at_the_depth_is_taken_by_itself() {
    let input = String::from("<r><a><t>x</t></a><b><u/></b><c/></r>");
    let out = edit_xml_text(&input, "t", "new", 2).unwrap();
    assert_eq!(
        out,
        "<r>\n  <a>\n    <t>new</t>\n  </a>\n  <b>\n    <u/>\n    <t>new</t>\n  </b>\n  <c/>\n</r>"
    );
    assert_eq!(edit_xml_text(&out, "t", "new", 2).unwrap(), out);
}

#[test]
fn a_name_with_a_space_writes_a_document_that_cannot_be_read() {
    let input = String::from("<s><name>n</name></s>");
    let out = edit_xml_text(&input, "a b", "t", 1).unwrap();
    assert_eq!(out, "<s>\n  <name>n</name>\n  <a b>t</a b>\n</s>");
    assert_eq!(edit_xml_text(&out, "a b", "t", 1), None);
}

#[test]
fn patch_events_twice_is_patch_events_once() {
    let events = vec![
        ev(EventKind::Start, "r"),
        ev(EventKind::Start, "a"),
        ev(EventKind::End, "a"),
        ev(EventKind::Start, "b"),
        ev(EventKind::Start, "t x='1'"),
        ev(EventKind::Text, "old"),
        ev(EventKind::End, "t"),
        ev(EventKind::End, "b"),
        ev(EventKind::End, "r"),
    ];
    for depth in [-1i64, 0, 1, 2, 3] {
        for text in ["", " ", "new"] {
            let once = patch_events(&events, "t", text, depth);
            assert_eq!(patch_events(&once, "t", text, depth), once);
        }
    }
    let at_two = patch_events(&events, "t", "new", 2);
    assert_eq!(
        at_two,
        vec![
            ev(EventKind::Start, "r"),
            ev(EventKind::Start, "a"),
            ev(EventKind::Start, "t"),
            ev(EventKind::Text, "new"),
            ev(EventKind::End, "t"),
            ev(EventKind::End, "a"),
            ev(EventKind::Start, "b"),
            ev(EventKind::Start, "t x='1'"),
            ev(EventKind::Text, "new"),
            ev(EventKind::End, "t"),
            ev(EventKind::End, "b"),
            ev(EventKind::End, "r"),
        ]
    );
}

#[test]
fn patch_events_on_a_child_without_text() {
    let events = vec![
        ev(EventKind::Start, "a"),
        ev(EventKind::Start, "description"),
        ev(EventKind::End, "description"),
        ev(EventKind::End, "a"),
    ];
    let expected = vec![
        ev(EventKind::Start, "a"),
        ev(EventKind::Start, "description"),
        ev(EventKind::Text, "t"),
        ev(EventKind::End, "description"),
        ev(EventKind::End, "a"),
    ];
    assert_eq!(patch_events(&events, "description", "t", 1), expected);
    let events = vec![
        ev(EventKind::Start, "a"),
        ev(EventKind::Empty, "description"),
        ev(EventKind::End, "a"),
    ];
    assert_eq!(patch_events(&events, "description", "t", 1), expected);
}

#[test]
fn has_name_reads_any_tag() {
    assert!(ev(EventKind::Empty, "disk name='vda'").has_name("disk"));
    assert!(ev(EventKind::End, "name").has_name("name"));
    assert!(!ev(EventKind::Empty, "disk").has_name("dis"));
}
