//! Tests of the wire conversions, driving the attribute tree from XML text
//! through quick-xml, the same way the transport does.

use quick_xml::events::Event as XmlEvent;
use socha_client_2024::action::Action;
use socha_client_2024::cube::{CubeDir, CubeVec};
use socha_client_2024::field::Field;
use socha_client_2024::moves::Move;
use socha_client_2024::protocol::Player;
use socha_client_2024::team::Team;
use socha_client_2024::xml::Element;

fn elem_from_start(start: &quick_xml::events::BytesStart) -> Element {
    let name = start.name().as_ref().to_string();
    let mut attributes = Vec::new();
    for attr in start.attributes() {
        let attr = attr.unwrap();
        attributes.push((
            attr.key.as_ref().to_string(),
            attr.value.to_string(),
        ));
    }
    Element {
        name,
        content: String::new(),
        attributes,
        childs: Vec::new(),
    }
}

fn parse_element(s: &str) -> Element {
    let mut reader = quick_xml::Reader::from_str(s);
    let mut stack: Vec<Element> = Vec::new();
    loop {
        match reader.read_event().unwrap() {
            XmlEvent::Start(start) => {
                stack.push(elem_from_start(&start));
            }
            XmlEvent::Empty(start) => {
                let node = elem_from_start(&start);
                match stack.last_mut() {
                    Some(parent) => parent.childs.push(node),
                    None => return node,
                }
            }
            XmlEvent::End(_) => {
                let node = stack.pop().unwrap();
                match stack.last_mut() {
                    Some(parent) => parent.childs.push(node),
                    None => return node,
                }
            }
            XmlEvent::Text(t) => {
                let txt = t.as_ref().trim().to_string();
                if !txt.is_empty() {
                    if let Some(node) = stack.last_mut() {
                        node.content.push_str(&txt);
                    }
                }
            }
            XmlEvent::Eof => panic!("unexpected end of input"),
            _ => {}
        }
    }
}

#[test]
fn action_test_xml_formats() {
    assert_eq!(
        Action::accelerate(-2).to_element(),
        parse_element(r#"<acceleration acc="-2" />"#)
    );
    assert_eq!(
        Action::advance(10).to_element(),
        parse_element(r#"<advance distance="10" />"#)
    );
    assert_eq!(
        Action::push(CubeDir::Left).to_element(),
        parse_element(r#"<push direction="LEFT" />"#)
    );
}

#[test]
fn mod_test_xml_formats() {
    assert_eq!(
        Action::accelerate(-2).to_element(),
        parse_element(r#"<acceleration acc="-2" />"#)
    );
    assert_eq!(
        Action::advance(10).to_element(),
        parse_element(r#"<advance distance="10" />"#)
    );
    assert_eq!(
        Action::push(CubeDir::Left).to_element(),
        parse_element(r#"<push direction="LEFT" />"#)
    );
}

#[test]
fn cube_vec_test_xml_parses() {
    assert_eq!(
        CubeVec::from_element(&parse_element(r#"<position q="23" r="0" s="-23" />"#)).unwrap(),
        CubeVec::new(23, 0, -23)
    );
}

#[test]
fn field_test_xml_parses() {
    assert_eq!(
        Field::from_element(&parse_element(r#"<water />"#)).unwrap(),
        Field::Water
    );
    assert_eq!(
        Field::from_element(&parse_element(r#"<island />"#)).unwrap(),
        Field::Island
    );
    assert_eq!(
        Field::from_element(&parse_element(r#"<goal />"#)).unwrap(),
        Field::Goal
    );
    assert_eq!(
        Field::from_element(&parse_element(r#"<sandbank />"#)).unwrap(),
        Field::Sandbank
    );
}

#[test]
fn test_xml_roundtrips() {
    let value = Move {
        actions: vec![
            Action::advance(1),
            Action::turn(CubeDir::DownRight),
            Action::turn(CubeDir::Left),
        ],
    };
    let element = value.to_element();
    assert_eq!(Move::from_element(&element).unwrap(), value);
}

#[test]
fn vec_test_from_xml() {
    let parsed = CubeVec::from_element(&parse_element(r#"<position r="23" q="0" s="-2" />"#))
        .unwrap();
    assert_eq!(
        parsed,
        CubeVec {
            q: 0,
            r: 23,
            s: -2
        }
    );
}

#[test]
fn player_test_xml_parses() {
    assert_eq!(
        Player::from_element(&parse_element(r#"<player name="Alice" team="ONE" />"#)).unwrap(),
        Player::new(Some("Alice"), Team::One)
    );
    assert_eq!(
        Player::from_element(&parse_element(r#"<player team="TWO" />"#)).unwrap(),
        Player::new(None, Team::Two)
    );
}

#[test]
fn test_move_format_exact() {
    let m = Move {
        actions: vec![
            Action::accelerate(-1),
            Action::turn(CubeDir::DownRight),
            Action::advance(2),
        ],
    };
    let e = m.to_element();
    assert_eq!(e.name.as_str(), "data");
    assert_eq!(
        e.attributes,
        vec![("class".to_string(), "move".to_string())]
    );
    let actions = &e.childs[0];
    assert_eq!(actions.name.as_str(), "actions");
    assert_eq!(actions.childs.len(), 3);
    assert_eq!(actions.childs[0].attributes[0], ("acc".to_string(), "-1".to_string()));
    assert_eq!(
        actions.childs[1].attributes[0],
        ("direction".to_string(), "DOWN_RIGHT".to_string())
    );
    assert_eq!(
        actions.childs[2].attributes[0],
        ("distance".to_string(), "2".to_string())
    );
}

#[test]
fn test_number_roundtrip() {
    assert_eq!(socha_client_2024::numbers::format_i32(0).as_str(), "0");
    assert_eq!(socha_client_2024::numbers::format_i32(-17).as_str(), "-17");
    assert_eq!(socha_client_2024::numbers::format_i32(2147483647).as_str(), "2147483647");
    assert_eq!(socha_client_2024::numbers::parse_i32("0"), Some(0));
    assert_eq!(socha_client_2024::numbers::parse_i32("+42"), Some(42));
    assert_eq!(socha_client_2024::numbers::parse_i32("-2147483648"), Some(-2147483648));
    assert_eq!(socha_client_2024::numbers::parse_i32("2147483648"), None);
    assert_eq!(socha_client_2024::numbers::parse_i32(""), None);
    assert_eq!(socha_client_2024::numbers::parse_i32("12a"), None);
}

#[test]
fn test_parse_errors() {
    assert!(Field::from_element(&parse_element(r#"<lava />"#)).is_err());
    assert!(CubeVec::from_element(&parse_element(r#"<position q="x" r="0" s="0" />"#)).is_err());
    assert!(Action::from_element(&parse_element(r#"<warp distance="1" />"#)).is_err());
    assert!(
        socha_client_2024::wire::parse_dir("SIDEWAYS").is_err()
    );
    assert!(socha_client_2024::wire::parse_team("THREE").is_err());
}

#[test]
fn test_state_parses() {
    let xml = r#"
        <state startTeam="ONE" class="state" turn="0" currentTeam="ONE">
            <board nextDirection="DOWN_RIGHT">
                <segment direction="RIGHT">
                    <center q="0" r="0" s="0" />
                    <field-array>
                        <water />
                        <water />
                        <water />
                        <water />
                        <water />
                    </field-array>
                    <field-array>
                        <water />
                        <water />
                        <water />
                        <water />
                        <water />
                    </field-array>
                    <field-array>
                        <passenger passenger="1" direction="DOWN_RIGHT" />
                        <water />
                        <water />
                        <water />
                        <water />
                    </field-array>
                    <field-array>
                        <water />
                        <water />
                        <water />
                        <water />
                        <water />
                    </field-array>
                </segment>
            </board>
            <ship team="ONE" speed="1" freeTurns="1" direction="RIGHT" coal="6" passengers="0" points="0">
                <position r="-1" q="-1" s="2" />
            </ship>
            <ship team="TWO" speed="1" coal="6" points="0" freeTurns="1" passengers="0" direction="RIGHT">
                <position r="1" s="1" q="-2" />
            </ship>
        </state>
    "#;
    let state = socha_client_2024::state::State::from_element(&parse_element(xml)).unwrap();
    assert_eq!(state.turn, 0);
    assert_eq!(state.start_team, Team::One);
    assert_eq!(state.current_team, Team::One);
    assert_eq!(state.ship_one.position, CubeVec::new(-1, -1, 2));
    assert_eq!(state.ship_two.position, CubeVec::new(-2, 1, 1));
    assert_eq!(state.ship_one.coal, 6);
    assert_eq!(state.ship_one.movement, 1);
    assert_eq!(state.ship_one.free_acc, 1);
}
