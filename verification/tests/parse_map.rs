use gamekit::valve_maps::parse;
use gamekit::valve_maps::parse::base::ErrorKind;

const ROOM: &str = "// Game: Generic\n// Format: Valve\n// entity 0\n{\n\"classname\" \"worldspawn\"\n\"_tb_textures\" \"textures\"\n// brush 0\n{\n( -64 -64 -16 ) ( -64 -63 -16 ) ( -64 -64 -15 ) stone1_3 [ 0 -1 0 0 ] [ 0 0 -1 0 ] 0 1 1\n( -64 -64 -16 ) ( -64 -64 -15 ) ( -63 -64 -16 ) stone1_3 [ 1 0 0 0 ] [ 0 0 -1 0 ] 0 1 1\n( -64 -64 -16 ) ( -63 -64 -16 ) ( -64 -63 -16 ) __TB_empty [ -1 0 0 0 ] [ 0 -1 0 0 ] 0 1 1\n( 64 64 16 ) ( 64 65 16 ) ( 65 64 16 ) brick [ 1 0 0 0 ] [ 0 -1 0 0 ] 0 1 1\n( 64 64 16 ) ( 65 64 16 ) ( 64 64 17 ) brick [ -1 0 0 0 ] [ 0 0 -1 0 ] 0 1 1\n( 64 64 16 ) ( 64 64 17 ) ( 64 65 16 ) stone1_3 [ 0 1 0 -20.5 ] [ 0 0 -1 16 ] 45 0.5 2e1\n}\n}\n// entity 1\n{\n\"classname\" \"light\"\n\"origin\" \"-2704 1908 50\"\n}\n";

#[test]
fn reads_a_room_with_a_light() {
    let map = parse(ROOM).unwrap();
    assert_eq!(map.entities.len(), 2);
    let world = &map.entities[0];
    assert_eq!(world.fields.get_property("classname"), Some("worldspawn"));
    assert_eq!(world.fields.get_property("_tb_textures"), None);
    assert_eq!(world.fields.len(), 1);
    assert_eq!(world.brushes.len(), 1);
    let planes = &world.brushes[0].planes;
    assert_eq!(planes.len(), 6);
    assert_eq!(planes[0].points[0].x.text, "-64");
    assert_eq!(planes[0].points[1].y.text, "-63");
    assert_eq!(planes[0].points[2].z.text, "-15");
    assert_eq!(planes[0].texture.name, "stone1_3");
    assert_eq!(planes[2].texture.name, "__TB_empty");
    let last = &planes[5].texture;
    assert_eq!(last.alignment.axes.u.normal.y.text, "1");
    assert_eq!(last.alignment.axes.u.offset.text, "-20.5");
    assert_eq!(last.alignment.axes.v.normal.z.text, "-1");
    assert_eq!(last.alignment.axes.v.offset.text, "16");
    assert_eq!(last.alignment.rotation.text, "45");
    assert_eq!(last.alignment.scale.u.text, "0.5");
    assert_eq!(last.alignment.scale.v.text, "2e1");
    let light = &map.entities[1];
    assert_eq!(light.fields.get_property("origin"), Some("-2704 1908 50"));
    assert!(light.brushes.is_empty());
}

#[test]
fn text_without_an_entity_fails_where_the_entity_should_stand() {
    let error = parse("  // nothing\n  hello").unwrap_err();
    assert_eq!(error.kind, ErrorKind::Many1);
    assert_eq!(error.input, "hello");
    assert_eq!(error.context, "");
}

#[test]
fn empty_text_fails() {
    let error = parse("").unwrap_err();
    assert_eq!(error.kind, ErrorKind::Many1);
    assert_eq!(error.input, "");
}

#[test]
fn text_after_the_last_entity_fails_at_that_text() {
    let error = parse("{ \"a\" \"b\" }\n{ \"c\" ").unwrap_err();
    assert_eq!(error.kind, ErrorKind::Eof);
    assert_eq!(error.input, "{ \"c\" ");
}

#[test]
fn a_comment_that_the_text_ends_in_is_no_separator() {
    let error = parse("{ }\n// the end").unwrap_err();
    assert_eq!(error.kind, ErrorKind::Eof);
    assert_eq!(error.input, "// the end");
    assert!(parse("{ }\n// the end\n").is_ok());
    assert!(parse("{ }\n// the end\r\n").is_ok());
    assert!(parse("{ }\n// the\rend\n").is_err());
}
