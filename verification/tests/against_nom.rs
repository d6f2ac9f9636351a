use gamekit::valve_maps::parse as parse_map;
use gamekit::valve_maps::parse::base::ErrorKind as Kind;
use gamekit::valve_maps::parse::base::Parse;
use gamekit::valve_maps::parse::formats::shared::{Brush, MapEntity, Plane};
use gamekit::valve_maps::parse::formats::valve::{Axis, Number, TextureAlignment, Triple};
use gamekit::valve_maps::parse::formats::MapFile;
use nom::branch::alt;
use nom::bytes::complete::{tag, take_till};
use nom::character::complete::{char, line_ending, multispace1, not_line_ending};
use nom::combinator::{all_consuming, iterator, opt, recognize};
use nom::error::{ErrorKind, ParseError};
use nom::multi::{fold_many0, many0, many1};
use nom::number::complete::float;
use nom::sequence::{delimited, pair, preceded, terminated, tuple};
use nom::IResult;

#[derive(Debug, Clone, PartialEq)]
struct Fault<'i> {
    input: &'i str,
    kind: ErrorKind,
    context: &'static str,
}

impl<'i> ParseError<&'i str> for Fault<'i> {
    fn from_error_kind(input: &'i str, kind: ErrorKind) -> Self {
        Fault { input, kind, context: "" }
    }

    fn append(input: &'i str, kind: ErrorKind, other: Self) -> Self {
        Fault { input, kind, ..other }
    }

    fn add_context(input: &'i str, context: &'static str, other: Self) -> Self {
        Fault { input, context, ..other }
    }
}

type Read<'i, T> = IResult<&'i str, T, Fault<'i>>;

fn comment<'i>(input: &'i str) -> Read<'i, &'i str> {
    preceded(tag("//"), not_line_ending)(input)
}

fn separator<'i>(input: &'i str) -> Read<'i, &'i str> {
    recognize(|input| {
        let mut iter = iterator(input, alt((multispace1, terminated(comment, line_ending))));
        iter.for_each(drop);
        iter.finish()
    })(input)
}

fn quoted<'i>(input: &'i str) -> Read<'i, &'i str> {
    let mut escaped = false;
    let mut iter = input.chars();
    let error = |ctx| {
        Err(nom::Err::Error(Fault::add_context(
            input,
            ctx,
            Fault::from_error_kind(input, ErrorKind::Verify),
        )))
    };
    if let Some('"') = iter.next() {
        let end = iter
            .take_while(|c| match c {
                '"' if !escaped => false,
                '\\' => {
                    escaped = true;
                    true
                }
                _ => {
                    escaped = false;
                    true
                }
            })
            .count()
            + 1;
        if input[end..].starts_with('"') {
            Ok((&input[end + 1..], &input[1..end]))
        } else {
            error("no closing quote")
        }
    } else {
        error("no opening quote")
    }
}

fn number<'i>(input: &'i str) -> Read<'i, String> {
    nom::combinator::map(float, |x: f32| format!("{:08x}", x.to_bits()))(input)
}

fn triple<'i>(input: &'i str) -> Read<'i, String> {
    nom::combinator::map(
        tuple((terminated(number, separator), terminated(number, separator), number)),
        |(x, y, z)| format!("<{} {} {}>", x, y, z),
    )(input)
}

fn axis<'i>(input: &'i str) -> Read<'i, String> {
    delimited(
        pair(char('['), opt(separator)),
        nom::combinator::map(tuple((terminated(triple, separator), number)), |(n, o)| format!("[{} {}]", n, o)),
        pair(opt(separator), char(']')),
    )(input)
}

fn alignment<'i>(input: &'i str) -> Read<'i, String> {
    nom::combinator::map(
        tuple((
            terminated(
                nom::combinator::map(tuple((terminated(axis, opt(separator)), axis)), |(u, v)| format!("{}{}", u, v)),
                opt(separator),
            ),
            terminated(number, separator),
            nom::combinator::map(tuple((terminated(number, separator), number)), |(u, v)| format!("{} {}", u, v)),
        )),
        |(axes, rotation, scale)| format!("{} {} {}", axes, rotation, scale),
    )(input)
}

fn texture<'i>(input: &'i str) -> Read<'i, String> {
    nom::combinator::map(
        tuple((
            nom::combinator::map(terminated(take_till(char::is_whitespace), separator), String::from),
            alignment,
        )),
        |(name, alignment)| format!("{:?} {}", name, alignment),
    )(input)
}

fn points<'i>(input: &'i str) -> Read<'i, [String; 3]> {
    let point = terminated(
        delimited(pair(char('('), opt(separator)), triple, pair(opt(separator), char(')'))),
        opt(separator),
    );
    let mut iter = iterator(input, &point);
    let found = iter.collect::<Vec<_>>();
    iter.finish().and_then(|(rest, _)| match <[String; 3]>::try_from(found) {
        Ok(array) => Ok((rest, array)),
        Err(_) => Err(nom::Err::Error(Fault::from_error_kind(input, ErrorKind::Verify))),
    })
}

fn plane<'i>(input: &'i str) -> Read<'i, String> {
    nom::combinator::map(tuple((points, texture)), |(p, t)| format!("plane({} {} {} {})", p[0], p[1], p[2], t))(
        input,
    )
}

fn brush<'i>(input: &'i str) -> Read<'i, String> {
    nom::combinator::map(
        delimited(
            pair(char('{'), opt(separator)),
            many0(terminated(plane, opt(separator))),
            pair(opt(separator), char('}')),
        ),
        |planes| format!("brush{{{}}}", planes.join(",")),
    )(input)
}

fn fields<'i>(input: &'i str) -> Read<'i, Vec<(String, String)>> {
    fold_many0(
        terminated(pair(terminated(quoted, opt(separator)), quoted), opt(separator)),
        Vec::new(),
        |mut all: Vec<(String, String)>, (k, v): (&str, &str)| {
            if !k.starts_with("_tb_") {
                all.retain(|(key, _)| key != k);
                all.push((k.to_string(), v.to_string()));
            }
            all
        },
    )(input)
}

fn entity<'i>(input: &'i str) -> Read<'i, String> {
    delimited(
        pair(char('{'), opt(separator)),
        nom::combinator::map(
            tuple((terminated(fields, opt(separator)), many0(terminated(brush, opt(separator))))),
            |(mut fields, brushes)| {
                fields.sort();
                format!("entity{{{:?} {}}}", fields, brushes.join(","))
            },
        ),
        char('}'),
    )(input)
}

fn whole<'i>(input: &'i str) -> Read<'i, String> {
    preceded(
        opt(separator),
        nom::combinator::map(many1(terminated(entity, opt(separator))), |entities| entities.join(";")),
    )(input)
}

fn bits(number: &Number) -> String {
    let read: IResult<&str, f32, (&str, ErrorKind)> = float(number.text.as_str());
    let (rest, value) = read.unwrap();
    assert_eq!(rest, "");
    format!("{:08x}", value.to_bits())
}

fn show_triple(t: &Triple) -> String {
    format!("<{} {} {}>", bits(&t.x), bits(&t.y), bits(&t.z))
}

fn show_axis(a: &Axis) -> String {
    format!("[{} {}]", show_triple(&a.normal), bits(&a.offset))
}

fn show_alignment(a: &TextureAlignment) -> String {
    format!(
        "{}{} {} {} {}",
        show_axis(&a.axes.u),
        show_axis(&a.axes.v),
        bits(&a.rotation),
        bits(&a.scale.u),
        bits(&a.scale.v)
    )
}

fn show_plane(p: &Plane) -> String {
    format!(
        "plane({} {} {} {:?} {})",
        show_triple(&p.points[0]),
        show_triple(&p.points[1]),
        show_triple(&p.points[2]),
        p.texture.name,
        show_alignment(&p.texture.alignment)
    )
}

fn show_brush(b: &Brush) -> String {
    format!("brush{{{}}}", b.planes.iter().map(show_plane).collect::<Vec<_>>().join(","))
}

fn show_entity(e: &MapEntity) -> String {
    let mut fields = e.fields.clone().into_inner();
    fields.sort();
    format!(
        "entity{{{:?} {}}}",
        fields,
        e.brushes.iter().map(show_brush).collect::<Vec<_>>().join(",")
    )
}

fn show_map(m: &MapFile) -> String {
    m.entities.iter().map(show_entity).collect::<Vec<_>>().join(";")
}

fn kind_of(kind: ErrorKind) -> Kind {
    match kind {
        ErrorKind::Char => Kind::Char,
        ErrorKind::Float => Kind::Float,
        ErrorKind::Verify => Kind::Verify,
        ErrorKind::Many1 => Kind::Many1,
        ErrorKind::Eof => Kind::Eof,
        other => panic!("a kind that the library has not: {:?}", other),
    }
}

fn compare(input: &str) {
    let theirs = all_consuming(whole)(input);
    match (parse_map(input), theirs) {
        (Ok(map), Ok((_, shown))) => assert_eq!(show_map(&map), shown, "on {:?}", input),
        (Err(error), Err(nom::Err::Error(fault))) => {
            assert_eq!(error.kind, kind_of(fault.kind), "on {:?}", input);
            assert_eq!(error.input, fault.input, "on {:?}", input);
            assert_eq!(error.context, fault.context, "on {:?}", input);
        }
        (ours, theirs) => panic!("on {:?}: {:?} but nom {:?}", input, ours.is_ok(), theirs),
    }
}

fn compare_part<'i, T>(
    ours: gamekit::valve_maps::parse::base::ParseResult<'i, T>,
    theirs: Read<'i, String>,
    show: fn(&T) -> String,
    input: &str,
) {
    match (ours, theirs) {
        (Ok((rest, value)), Ok((nom_rest, shown))) => {
            assert_eq!(rest, nom_rest, "on {:?}", input);
            assert_eq!(show(&value), shown, "on {:?}", input);
        }
        (Err(error), Err(nom::Err::Error(fault))) => {
            assert_eq!(error.kind, kind_of(fault.kind), "on {:?}", input);
            assert_eq!(error.input, fault.input, "on {:?}", input);
            assert_eq!(error.context, fault.context, "on {:?}", input);
        }
        (ours, theirs) => panic!("on {:?}: {:?} but nom {:?}", input, ours.is_ok(), theirs),
    }
}

const SAMPLE: &str = "// Game: Generic\n// Format: Valve\n{\n\"classname\" \"worldspawn\"\n\"_tb_textures\" \"a;b\"\n\"message\" \"say \\\"hi\\\"\"\n// brush 0\n{\n( -64 -64 -16 ) ( -64 -63 -16 ) ( -64 -64 -15 ) stone1_3 [ 0 -1 0 0 ] [ 0 0 -1 0 ] 0 1 1\n( 64 64 16 ) ( 64 64 17 ) ( 64 65 16 ) __TB_empty [ 0 1 0 -20.5 ] [ 0 0 -1 16 ] 45 0.5 2e1\n}\n{\n( 1 2 3 )( 4 5 6 )( 7 8 9 ) a/b [1 0 0 0][0 1 0 0] 0 1 1 // note\n}\n}\n{\r\n\"classname\" \"light\"\r\n\"origin\" \"-2704 1908 50\"\r\n}\r\n";

#[test]
fn the_sample_is_read_as_nom_reads_it() {
    compare(SAMPLE);
    assert!(parse_map(SAMPLE).is_ok());
}

#[test]
fn small_texts_are_read_as_nom_reads_them() {
    let texts = [
        "",
        " ",
        "{}",
        "{ }",
        "{}{}",
        "{} {} x",
        "x",
        "//\n{}",
        "// c",
        "// c\r{}",
        "// c\r\n{}",
        "/ {}",
        "{ \"a\" \"b\" }",
        "{ \"a\" \"b\" \"a\" \"c\" }",
        "{ \"a\" }",
        "{ \"a\" \"b }",
        "{ \"_tb_x\" \"b\" }",
        "{ {} }",
        "{ { } { } }",
        "{ { ( 1 2 3 ) } }",
        "{ { ( 1 2 3 ) ( 1 2 3 ) ( 1 2 3 ) t [ 1 2 3 4 ] [ 1 2 3 4 ] 0 1 1 } }",
        "{ { ( 1 2 3 ) ( 1 2 3 ) ( 1 2 3 ) ( 1 2 3 ) t [ 1 2 3 4 ] [ 1 2 3 4 ] 0 1 1 } }",
        "{ { ( 1 2 3 ) ( 1 2 3 ) ( 1 2 3 ) t [ 1 2 3 4 ] [ 1 2 3 4 ] 0 1 } }",
        "{ { ( 1 2 3 ) ( 1 2 3 ) ( 1 2 3 ) t [ 1 2 3 ] [ 1 2 3 4 ] 0 1 1 } }",
        "{ { ( 1 2 3 ) ( 1 2 3 ) ( 1 2 3 ) [ 1 2 3 4 ] [ 1 2 3 4 ] 0 1 1 } }",
        "{ { (1 2 3)(1 2 3)(1 2 3)t [1 2 3 4][1 2 3 4]0 1 1}}",
        "{ { ( 1 2 3 ) ( 1 2 3 ) ( 1 2 3 ) t [ 1 2 3 4 ] [ 1 2 3 4 ] 0 1 1} } }",
        "{ { ( 1e 2 3 ) ( 1 2 3 ) ( 1 2 3 ) t [ 1 2 3 4 ] [ 1 2 3 4 ] 0 1 1 } }",
        "{ { ( nan inf -inf ) ( 1. .2 3 ) ( +1 -2 3e2 ) t [ 1 2 3 4 ] [ 1 2 3 4 ] 0 1 1 } }",
        "{ { ( 1 2 3 ) ( 1 2 3 ) ( 1 2 3 ) t [ 1 2 3 4 ] [ 1 2 3 4 ] 0 1 1 // c\n } }",
        "{ { ( 1 2 3 ) ( 1 2 3 ) ( 1 2 3 ) t\n[ 1 2 3 4 ]\n[ 1 2 3 4 ]\n0\n1\n1\n}\n}",
        "{ \"a\" \"b\" { } \"c\" \"d\" }",
        "{ // c\n \"a\" // d\n \"b\" // e\n }",
    ];
    for text in texts {
        compare(text);
    }
}

#[test]
fn changed_texts_are_read_as_nom_reads_them() {
    let alphabet: Vec<char> = "{}()[]\"\\/\n\r\t -+.0123456789eEab_".chars().collect();
    let sample: Vec<char> = SAMPLE.chars().collect();
    let mut seed: u32 = 2024;
    let mut next = move |bound: usize| {
        seed = seed.wrapping_mul(1664525).wrapping_add(1013904223);
        (seed >> 8) as usize % bound
    };
    for _ in 0..1500 {
        let mut text = sample.clone();
        for _ in 0..1 + next(3) {
            let at = next(text.len());
            match next(3) {
                0 => {
                    text.remove(at);
                }
                1 => text.insert(at, alphabet[next(alphabet.len())]),
                _ => text[at] = alphabet[next(alphabet.len())],
            }
        }
        let text: String = text.into_iter().collect();
        compare(&text);
    }
}

#[test]
fn parts_are_read_as_nom_reads_them() {
    let texts = [
        "( 1 2 3 ) ( 4 5 6 ) ( 7 8 9 ) stone [ 1 0 0 0 ] [ 0 1 0 0 ] 0 1 1 rest",
        "( 1 2 3 ) ( 4 5 6 ) stone [ 1 0 0 0 ] [ 0 1 0 0 ] 0 1 1",
        "( 1 2 3 ) ( 4 5 6 ) ( 7 8 9 ) stone [ 1 0 0 0 ] [ 0 1 0 ] 0 1 1",
        "( 1 2 3 ) ( 4 5 6 ) ( 7 8 9 ) stone [ 1 0 0 0 ] [ 0 1 0 0 ] 0 1",
        "( 1 2 3 ) ( 4 5 6 ) ( 7 8 9 )",
        "( 1 2 3 ) ( 4 5 6 ) ( 7 8 9 ) stone",
        "( 1 2 3 ) ( 4 5 6 ) ( 7 8 x ) stone [ 1 0 0 0 ] [ 0 1 0 0 ] 0 1 1",
        "{ ( 1 2 3 ) ( 4 5 6 ) ( 7 8 9 ) stone [ 1 0 0 0 ] [ 0 1 0 0 ] 0 1 1 } rest",
        "{ ( 1 2 3 ) ( 4 5 6 ) ( 7 8 9 ) stone [ 1 0 0 0 ] [ 0 1 0 0 ] 0 1 1",
        "{ }",
        "{",
        "",
        "{ \"a\" \"b\" { } } rest",
        "{ \"a\" \"b\" { }",
        "{ \"a\" \"b\" { ( } }",
    ];
    for text in texts {
        compare_part(Plane::parse(text), plane(text), show_plane, text);
        compare_part(Brush::parse(text), brush(text), show_brush, text);
        compare_part(MapEntity::parse(text), entity(text), show_entity, text);
        compare_part(MapFile::parse(text), whole(text), show_map, text);
    }
}
