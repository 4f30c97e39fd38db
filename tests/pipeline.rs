use tg_codegen::generator::{return_types, synthesize, Generator};
use tg_codegen::utils::{capitalize_from, snake_case_from};
use kuchiki::traits::TendrilSink;
use tg_codegen::document::{enum_parser, parser};
use tg_codegen::parser::{parse_lists, parse_tables, Cell, List, ParseError, Row, Sibling, Table};
use tg_codegen::registry::Registry;
use tg_codegen::types::{
    FieldKind, FieldType, TelegramFieldType, TelegramMethod, TelegramTypeOrMethod, TypeKind,
};
use tg_codegen::writer::write_mod_files;

fn text_node() -> Sibling {
    Sibling { tag: None, text: "\n".to_string(), last_text: Some("\n".to_string()) }
}

fn element(tag: &str, text: &str) -> Sibling {
    Sibling {
        tag: Some(tag.to_string()),
        text: text.to_string(),
        last_text: Some(text.to_string()),
    }
}

/// The nodes before a table: a paragraph of documentation, then the heading.
fn heading(name: &str, doc: &str) -> Vec<Sibling> {
    vec![text_node(), element("p", doc), text_node(), element("h4", name)]
}

fn cell(text: &str) -> Cell {
    Cell { first_text: Some(text.to_string()), text: text.to_string() }
}

fn row(cells: &[&str]) -> Row {
    Row { cells: cells.iter().map(|c| cell(c)).collect() }
}

fn header() -> Row {
    Row { cells: Vec::new() }
}

fn user_table() -> Table {
    Table {
        preceding: heading("User", "This object represents a user."),
        rows: vec![
            header(),
            row(&["id", "Integer", "Identifier"]),
            row(&["first_name", "String", "First name"]),
        ],
    }
}

fn send_message_table() -> Table {
    Table {
        preceding: heading("sendMessage", "On success, the sent Message is returned."),
        rows: vec![
            header(),
            row(&["chat_id", "Integer or String", "Yes", "Unique identifier"]),
            row(&["text", "String", "Yes", "Text of the message"]),
            row(&[
                "reply_markup",
                "InlineKeyboardMarkup or ReplyKeyboardMarkup",
                "Optional",
                "Additional interface options",
            ]),
        ],
    }
}

fn raw(name: &str, is_optional: bool) -> TelegramFieldType {
    TelegramFieldType { name: name.to_string(), is_optional }
}

fn variants(ft: &FieldType) -> Vec<(String, String)> {
    match &ft.kind {
        FieldKind::Enum(v) => v.clone(),
        FieldKind::Simple => Vec::new(),
    }
}

fn pairs(items: &[(&str, &str)]) -> Vec<(String, String)> {
    items.iter().map(|(a, b)| (a.to_string(), b.to_string())).collect()
}

#[test]
fn three_columns_make_a_type() {
    let parsed = TelegramTypeOrMethod::parse(&user_table()).unwrap();
    match parsed {
        TelegramTypeOrMethod::Type(ty) => {
            assert_eq!(ty.name, "User");
            assert_eq!(ty.docs, vec!["This object represents a user.".to_string()]);
            assert_eq!(ty.fields.len(), 2);
            assert_eq!(ty.fields[0].name, "id");
            assert_eq!(ty.fields[0].telegram_type.name, "Integer");
            assert!(!ty.fields[0].telegram_type.is_optional);
            assert_eq!(ty.fields[1].doc, "First name");
        },
        TelegramTypeOrMethod::Method(_) => panic!("a three-column table is a type"),
    }
}

#[test]
fn four_columns_make_a_method() {
    let parsed = TelegramTypeOrMethod::parse(&send_message_table()).unwrap();
    match parsed {
        TelegramTypeOrMethod::Method(m) => {
            assert_eq!(m.name, "sendMessage");
            assert_eq!(m.return_type.name, "Message");
            assert_eq!(m.fields.len(), 3);
            assert!(!m.fields[0].telegram_type.is_optional);
            assert!(m.fields[2].telegram_type.is_optional);
        },
        TelegramTypeOrMethod::Type(_) => panic!("a four-column table is a method"),
    }
}

#[test]
fn other_widths_are_refused() {
    let table = Table {
        preceding: heading("Odd", "Five columns."),
        rows: vec![header(), row(&["a", "b", "c", "d", "e"])],
    };
    assert_eq!(TelegramTypeOrMethod::parse(&table).unwrap_err(), ParseError::Shape);
    let two = Table { preceding: heading("Odd", "Two."), rows: vec![header(), row(&["a", "b"])] };
    assert_eq!(TelegramTypeOrMethod::parse(&two).unwrap_err(), ParseError::Shape);
}

#[test]
fn a_row_of_another_width_is_refused() {
    let table = Table {
        preceding: heading("User", "A user."),
        rows: vec![header(), row(&["id", "Integer", "Identifier"]), row(&["x", "y"])],
    };
    assert_eq!(TelegramTypeOrMethod::parse(&table).unwrap_err(), ParseError::Shape);
}

#[test]
fn a_table_without_heading_is_refused() {
    let table = Table {
        preceding: vec![text_node(), element("p", "No heading.")],
        rows: vec![header(), row(&["id", "Integer", "Identifier"])],
    };
    assert_eq!(TelegramTypeOrMethod::parse(&table).unwrap_err(), ParseError::Structure);
    let headerless = Table { preceding: heading("User", "A user."), rows: vec![header()] };
    assert_eq!(TelegramTypeOrMethod::parse(&headerless).unwrap_err(), ParseError::Structure);
}

#[test]
fn a_method_without_return_sentence_is_refused() {
    let table = Table {
        preceding: heading("doThings", "Use this method to do things."),
        rows: vec![header(), row(&["x", "Integer", "Yes", "A number"])],
    };
    assert_eq!(TelegramTypeOrMethod::parse(&table).unwrap_err(), ParseError::ReturnType);
}

#[test]
fn documentation_comes_in_document_order() {
    let table = Table {
        preceding: vec![
            text_node(),
            element("p", "Second paragraph."),
            text_node(),
            element("p", "First paragraph."),
            text_node(),
            element("h4", "Chat"),
        ],
        rows: vec![header(), row(&["id", "Integer", "Identifier"])],
    };
    match TelegramTypeOrMethod::parse(&table).unwrap() {
        TelegramTypeOrMethod::Type(ty) => {
            assert_eq!(ty.name, "Chat");
            assert_eq!(ty.docs, vec!["First paragraph.".to_string(), "Second paragraph.".to_string()]);
        },
        _ => panic!("expected a type"),
    }
}

#[test]
fn optional_marker_is_stripped_from_type_fields() {
    let table = Table {
        preceding: heading("Chat", "A chat."),
        rows: vec![header(), row(&["title", "String", "Optional. Title, for groups"])],
    };
    match TelegramTypeOrMethod::parse(&table).unwrap() {
        TelegramTypeOrMethod::Type(ty) => {
            assert!(ty.fields[0].telegram_type.is_optional);
            assert_eq!(ty.fields[0].doc, "Title, for groups");
        },
        _ => panic!("expected a type"),
    }
}

#[test]
fn parser_reads_every_table_and_stops_at_the_first_bad_one() {
    let entities = parse_tables(&vec![user_table(), send_message_table()]).unwrap();
    assert_eq!(entities.len(), 2);
    let bad = Table { preceding: heading("Bad", "Bad."), rows: vec![header()] };
    assert_eq!(parse_tables(&vec![user_table(), bad]).unwrap_err(), ParseError::Structure);
}

#[test]
fn returns_sentence_gives_its_type() {
    assert_eq!(
        TelegramMethod::parse_return_type("Returns the sent Message").as_deref(),
        Some("Message")
    );
    let ft = raw("Message", false).into_field_type("");
    assert_eq!(ft.name, "Message");
    assert_eq!(ft.array_count, 0);
    assert!(matches!(ft.kind, FieldKind::Simple));
}

#[test]
fn otherwise_sentence_gives_a_two_variant_union() {
    let doc = "On success, if the message was sent by the bot, the edited Message object is returned, otherwise True is returned.";
    let phrase = TelegramMethod::parse_return_type(doc).unwrap();
    assert_eq!(phrase, "Message or True");
    let ft = raw(&phrase, false).into_field_type("");
    assert_eq!(variants(&ft), pairs(&[("Message", "Message"), ("True", "True")]));
    assert_eq!(ft.name, "MessageOrTrue");
}

#[test]
fn return_type_forms() {
    assert_eq!(
        TelegramMethod::parse_return_type("Use this method to get updates. An Array of Update objects is returned.")
            .as_deref(),
        Some("Array of Update")
    );
    assert_eq!(
        TelegramMethod::parse_return_type("Returns True on success.").as_deref(),
        Some("True")
    );
    assert_eq!(
        TelegramMethod::parse_return_type("On success, returns an Array of Message objects that were sent.")
            .as_deref(),
        Some("Array of Message")
    );
    assert_eq!(TelegramMethod::parse_return_type("Nothing to see here."), None);
    assert_eq!(
        TelegramMethod::parse_return_type_sentence(" On success, the sent Message is returned", 1)
            .as_deref(),
        Some("Message")
    );
}

#[test]
fn anchor_helpers() {
    let words = vec!["Returns", "the", "sent", "Message,", "or", "nothing"];
    assert_eq!(TelegramMethod::parse_returns(&words, 0), Some("Message"));
    let words = vec!["Returns", "as", "String"];
    assert_eq!(TelegramMethod::parse_returns(&words, 0), Some("String"));
    let words = vec!["Returns"];
    assert_eq!(TelegramMethod::parse_returns(&words, 0), None);
    let words = vec!["the", "Chats", "are", "returned"];
    assert_eq!(TelegramMethod::parse_is_returned(&words, 3), Some("Chat"));
    let words = vec!["a", "Poll", "object", "is", "returned"];
    assert_eq!(TelegramMethod::parse_is_returned(&words, 4), Some("Poll"));
    let words = vec!["object", "is", "returned"];
    assert_eq!(TelegramMethod::parse_is_returned(&words, 2), Some("object"));
    let words = vec!["is", "returned"];
    assert_eq!(TelegramMethod::parse_is_returned(&words, 1), None);
}

#[test]
fn array_depth_counts_prefixes() {
    let ft = raw("Array of Array of PhotoSize", true).into_field_type("photo");
    assert_eq!(ft.array_count, 2);
    assert_eq!(ft.name, "PhotoSize");
    assert!(ft.is_optional);
    let again = raw(&ft.name, true).into_field_type("photo");
    assert_eq!(again.array_count, 0);
    assert_eq!(again.name, "PhotoSize");
}

#[test]
fn or_takes_priority_over_and() {
    let ft = raw("InputFile or Photo and Video", false).into_field_type("media_item");
    assert_eq!(variants(&ft), pairs(&[("InputFile", "InputFile"), ("Photo and Video", "Photo and Video")]));
    assert_eq!(ft.name, "MediaItem");
    let ft = raw("Audio and Video", false).into_field_type("media_item");
    assert_eq!(variants(&ft), pairs(&[("Audio", "Audio"), ("Video", "Video")]));
}

#[test]
fn chat_id_is_identifier_or_username() {
    for phrase in ["Integer or String", "String or Integer", "Integer and String"] {
        let ft = raw(phrase, false).into_field_type("from_chat_id");
        assert_eq!(ft.name, "ChatIdOrUsername");
        assert_eq!(variants(&ft), pairs(&[("Id", "Integer"), ("Username", "String")]));
    }
}

#[test]
fn media_string_is_file_or_string() {
    let ft = raw("String", false).into_field_type("media");
    assert_eq!(ft.name, "InputFileOrString");
    assert_eq!(variants(&ft), pairs(&[("InputFile", "InputFile"), ("String", "String")]));
    let plain = raw("String", false).into_field_type("caption");
    assert!(matches!(plain.kind, FieldKind::Simple));
}

#[test]
fn union_named_after_field() {
    let ft = raw("InputFile or String", false).into_field_type("thumb_image");
    assert_eq!(ft.name, "ThumbImage");
    let ft = raw("InlineKeyboardMarkup or ForceReply", true).into_field_type("reply_markup");
    assert_eq!(ft.name, "ReplyMarkup");
}

#[test]
fn user_type_declaration() {
    let ty = TelegramTypeOrMethod::parse(&user_table()).unwrap().into_type();
    let mut registry = Registry::new();
    let contents = ty.generate(&mut registry, &Vec::new()).unwrap();
    assert!(contents.contains("pub struct User {"));
    assert!(contents.contains("pub(crate) id: Integer,"));
    assert!(contents.contains("pub(crate) first_name: String,"));
    assert!(!contents.contains("Option<"));
    assert!(!contents.contains("skip_serializing_if"));
    assert!(contents.contains("/// Identifier"));
    assert_eq!(registry.modules().len(), 1);
    assert_eq!(registry.modules()[0].module_name, "user");
}

#[test]
fn send_message_declaration() {
    let ty = TelegramTypeOrMethod::parse(&send_message_table()).unwrap().into_type();
    assert_eq!(ty.name, "SendMessage");
    match &ty.kind {
        TypeKind::Method(rt) => assert_eq!(rt.name, "Message"),
        _ => panic!("expected a method"),
    }
    let mut registry = Registry::new();
    let contents = ty.generate(&mut registry, &Vec::new()).unwrap();
    assert!(contents.contains("#[return_type = \"Message\"]"));
    assert!(contents.contains("pub struct SendMessage {"));
    assert!(contents.contains("pub(crate) chat_id: ChatIdOrUsername,"));
    assert!(contents.contains("#[serde(skip_serializing_if = \"Option::is_none\")]"));
    assert!(contents.contains("pub(crate) reply_markup: Option<ReplyMarkup>,"));
    let names: Vec<&str> = registry.modules().iter().map(|m| m.module_type.as_str()).collect();
    assert_eq!(names, vec!["ChatIdOrUsername", "ReplyMarkup", "SendMessage"]);
    assert_eq!(registry.modules()[2].module_name, "send_message");
}

#[test]
fn type_field_is_renamed() {
    let table = Table {
        preceding: heading("MessageEntity", "A special entity."),
        rows: vec![header(), row(&["type", "String", "Type of the entity"])],
    };
    let ty = TelegramTypeOrMethod::parse(&table).unwrap().into_type();
    let contents = ty.generate(&mut Registry::new(), &Vec::new()).unwrap();
    assert!(contents.contains("#[serde(rename = \"type\")]"));
    assert!(contents.contains("pub(crate) type_: String,"));
}

#[test]
fn self_reference_is_boxed() {
    let table = Table {
        preceding: heading("Message", "A message."),
        rows: vec![
            header(),
            row(&["message_id", "Integer", "Identifier"]),
            row(&["reply_to_message", "Message", "Optional. The message replied to"]),
        ],
    };
    let ty = TelegramTypeOrMethod::parse(&table).unwrap().into_type();
    let contents = ty.generate(&mut Registry::new(), &Vec::new()).unwrap();
    assert!(contents.contains("pub(crate) reply_to_message: Option<Box<Message>>,"));
}

#[test]
fn reply_markup_union_is_filed_once() {
    let mut registry = Registry::new();
    let first = send_message_table();
    let mut second = send_message_table();
    second.preceding = heading("sendPhoto", "On success, the sent Message is returned.");
    for table in [first, second] {
        let ty = TelegramTypeOrMethod::parse(&table).unwrap().into_type();
        ty.generate(&mut registry, &Vec::new()).unwrap();
    }
    let unions = registry
        .modules()
        .iter()
        .filter(|m| m.module_type == "ReplyMarkup")
        .count();
    assert_eq!(unions, 1);
    assert_eq!(registry.modules().len(), 4);
}

#[test]
fn clashing_union_is_refused() {
    let mut registry = Registry::new();
    let a = raw("InputFile or String", false).into_field_type("photo");
    let b = raw("PhotoSize or String", false).into_field_type("photo");
    a.generate(&mut registry, &Vec::new()).unwrap();
    let err = b.generate(&mut registry, &Vec::new()).unwrap_err();
    assert_eq!(err.module_type, "Photo");
    assert_eq!(registry.modules().len(), 1);
}

#[test]
fn union_declaration_is_untagged() {
    let ft = raw("InputFile or String", false).into_field_type("thumb");
    let mut registry = Registry::new();
    let text = ft.generate(&mut registry, &Vec::new()).unwrap();
    assert_eq!(text, "Thumb");
    let contents = &registry.modules()[0].contents;
    assert!(contents.contains("#[serde(untagged)]"));
    assert!(contents.contains("pub enum Thumb {"));
    assert!(contents.contains("InputFile(InputFile),"));
    assert!(contents.contains("#[derive(Debug, Serialize)]"));
    let read = vec!["Thumb".to_string()];
    let mut registry = Registry::new();
    raw("InputFile or String", false).into_field_type("thumb").generate(&mut registry, &read).unwrap();
    assert!(registry.modules()[0].contents.contains("#[derive(Debug, Deserialize, Clone)]"));
}

#[test]
fn type_text_maps_primitives() {
    assert_eq!(raw("Boolean", false).into_field_type("x").type_text(), "bool");
    assert_eq!(raw("Float number", false).into_field_type("x").type_text(), "Float");
    assert_eq!(raw("Int", true).into_field_type("x").type_text(), "Option<Integer>");
    assert_eq!(raw("Array of Array of Int", false).into_field_type("x").type_text(), "Vec<Vec<Integer>>");
}

#[test]
fn enum_lists_skip_the_first_two() {
    let list = |name: &str, items: &[&str]| List {
        preceding: heading(name, "Doc"),
        items: items.iter().map(|s| s.to_string()).collect(),
    };
    let lists = vec![
        list("Intro", &["a"]),
        list("Recent", &["b"]),
        list("BotCommandScope", &["BotCommandScopeDefault", "BotCommandScopeChat"]),
    ];
    let unions = parse_lists(&lists).unwrap();
    assert_eq!(unions.len(), 1);
    assert_eq!(unions[0].name, "BotCommandScope");
    assert_eq!(unions[0].doc.as_deref(), Some("Doc"));
    assert_eq!(
        variants(&unions[0]),
        pairs(&[
            ("BotCommandScopeDefault", "BotCommandScopeDefault"),
            ("BotCommandScopeChat", "BotCommandScopeChat"),
        ])
    );
    let short = vec![list("Intro", &["a"]), list("Recent", &["b"]), List { preceding: vec![], items: vec![] }];
    assert_eq!(parse_lists(&short).unwrap_err(), ParseError::Structure);
}

#[test]
fn mod_files_per_area() {
    let mut registry = Registry::new();
    let ty = TelegramTypeOrMethod::parse(&send_message_table()).unwrap().into_type();
    ty.generate(&mut registry, &Vec::new()).unwrap();
    let files = write_mod_files(registry.modules(), &TypeKind::Enum).unwrap();
    let paths: Vec<&str> = files.iter().map(|f| f.path.as_str()).collect();
    assert_eq!(
        paths,
        vec!["types/enums/chat_id_or_username.rs", "types/enums/reply_markup.rs", "types/enums/mod.rs"]
    );
    let index = &files[2].contents;
    assert!(index.starts_with("mod reply_markup;\nmod chat_id_or_username;\n"));
    assert!(index.contains("pub use self::chat_id_or_username::ChatIdOrUsername;"));
    assert!(write_mod_files(registry.modules(), &TypeKind::Type).is_none());
    let methods = write_mod_files(registry.modules(), &TypeKind::Method(raw("True", false).into_field_type(""))).unwrap();
    assert_eq!(methods[0].path, "methods/send_message.rs");
}

#[test]
fn case_conversions() {
    assert_eq!(tg_codegen::utils::snake_case("SendMessage"), "send_message");
    assert_eq!(tg_codegen::utils::snake_case("ChatIdOrUsername"), "chat_id_or_username");
    assert_eq!(tg_codegen::utils::snake_case(""), "");
    let mut s = "sendMessage".to_string();
    tg_codegen::utils::capitalize(&mut s);
    assert_eq!(s, "SendMessage");
    let mut empty = String::new();
    tg_codegen::utils::capitalize(&mut empty);
    assert_eq!(empty, "");
}

#[test]
fn snake_case_follows_the_given_case_mappings() {
    let s: Vec<char> = "GetMe".chars().collect();
    let upper = vec![true, false, false, true, false];
    let lower: Vec<Vec<char>> = vec![vec!['g'], vec!['e'], vec!['t'], vec!['m'], vec!['e']];
    assert_eq!(snake_case_from(&s, &upper, &lower).iter().collect::<String>(), "get_me");
    let none = vec![false; 5];
    assert_eq!(snake_case_from(&s, &none, &lower).iter().collect::<String>(), "getMe");
    assert!(snake_case_from(&[], &[], &Vec::new()).is_empty());
}

#[test]
fn capitalize_puts_the_given_first_character() {
    assert_eq!(capitalize_from(&['a', 'b'], &['A']), vec!['A', 'b']);
    assert_eq!(capitalize_from(&['\u{df}', 'x'], &['S', 'S']), vec!['S', 'S', 'x']);
}

fn get_me_table() -> Table {
    Table {
        preceding: heading("getMe", "On success, a User object is returned."),
        rows: vec![header(), row(&["token", "String", "Yes", "The token"])],
    }
}

#[test]
fn return_types_reach_one_level_down() {
    let types: Vec<_> = parse_tables(&vec![user_table(), get_me_table()])
        .unwrap()
        .into_iter()
        .map(|e| e.into_type())
        .collect();
    assert_eq!(types[1].name, "GetMe");
    assert_eq!(return_types(&types), vec!["User".to_string(), "Integer".to_string(), "String".to_string()]);
}

#[test]
fn synthesize_files_every_entity_and_union() {
    let types: Vec<_> = parse_tables(&vec![user_table(), get_me_table(), send_message_table()])
        .unwrap()
        .into_iter()
        .map(|e| e.into_type())
        .collect();
    let read = return_types(&types);
    let list = List {
        preceding: heading("MenuButton", "Doc"),
        items: vec!["MenuButtonCommands".to_string(), "MenuButtonDefault".to_string()],
    };
    let unions = parse_lists(&vec![
        List { preceding: vec![], items: vec![] },
        List { preceding: vec![], items: vec![] },
        list,
    ])
    .unwrap();
    let registry = synthesize(types, unions, &read).unwrap();
    let names: Vec<&str> = registry.modules().iter().map(|m| m.module_type.as_str()).collect();
    assert_eq!(
        names,
        vec!["User", "GetMe", "ChatIdOrUsername", "ReplyMarkup", "SendMessage", "MenuButton"]
    );
    let user = &registry.modules()[0].contents;
    assert!(user.contains("#[derive(Debug, Deserialize, Clone, Getters)]"));
    assert!(user.contains("#[get(vis = \"pub\")]"));
    let get_me = &registry.modules()[1].contents;
    assert!(get_me.contains("#[derive(Debug, Serialize, TelegramApi, Setters, New)]"));
    assert!(get_me.contains("#[return_type = \"User\"]"));
}

#[test]
fn synthesize_stops_at_a_clash() {
    let clash = Table {
        preceding: heading("sendPhoto", "On success, the sent Message is returned."),
        rows: vec![
            header(),
            row(&["chat_id", "Integer or String", "Yes", "Unique identifier"]),
            row(&["reply_markup", "ForceReply or ReplyKeyboardRemove", "Optional", "Options"]),
        ],
    };
    let types: Vec<_> = parse_tables(&vec![send_message_table(), clash])
        .unwrap()
        .into_iter()
        .map(|e| e.into_type())
        .collect();
    match synthesize(types, Vec::new(), &Vec::new()) {
        Err(c) => assert_eq!(c.module_type, "ReplyMarkup"),
        Ok(_) => panic!("two different ReplyMarkup unions must clash"),
    }
}

const PAGE: &str = "<html><body>
<h4>Intro</h4>
<p>Lists that are not unions.</p>
<ul><li><a>first</a></li></ul>
<h4>Recent</h4>
<p>More lists.</p>
<ul><li><a>second</a></li></ul>
<h4>User</h4>
<p>This object represents a user.</p>
<table>
<thead><tr><th>Field</th><th>Type</th><th>Description</th></tr></thead>
<tbody>
<tr><td>id</td><td>Integer</td><td>Identifier</td></tr>
<tr><td>last_name</td><td>String</td><td><em>Optional</em>. Last name</td></tr>
</tbody>
</table>
<h4>sendMessage</h4>
<p>Use this method to send text messages. On success, the sent <a href=\"#message\">Message</a> is returned.</p>
<table>
<thead><tr><th>Parameter</th><th>Type</th><th>Required</th><th>Description</th></tr></thead>
<tbody>
<tr><td>chat_id</td><td>Integer or String</td><td>Yes</td><td>Unique identifier</td></tr>
<tr><td>photo</td><td><a href=\"#inputfile\">InputFile</a> or String</td><td>Optional</td><td>Photo to send</td></tr>
</tbody>
</table>
<h4>BotCommandScope</h4>
<p>This object represents the scope of bot commands.</p>
<ul>
<li><a href=\"#a\">BotCommandScopeDefault</a></li>
<li><a href=\"#b\">BotCommandScopeChat</a></li>
</ul>
</body></html>";

#[test]
fn document_end_to_end() {
    let document = kuchiki::parse_html().one(PAGE);
    let entities = parser(&document).unwrap();
    assert_eq!(entities.len(), 2);
    match &entities[0] {
        TelegramTypeOrMethod::Type(ty) => {
            assert_eq!(ty.name, "User");
            assert_eq!(ty.docs, vec!["This object represents a user.".to_string()]);
            assert_eq!(ty.fields[1].name, "last_name");
            assert!(ty.fields[1].telegram_type.is_optional);
            assert_eq!(ty.fields[1].doc, "Last name");
        },
        _ => panic!("expected a type"),
    }
    match &entities[1] {
        TelegramTypeOrMethod::Method(m) => {
            assert_eq!(m.name, "sendMessage");
            assert_eq!(m.return_type.name, "Message");
            assert_eq!(m.fields[1].telegram_type.name, "InputFile or String");
            assert!(m.fields[1].telegram_type.is_optional);
        },
        _ => panic!("expected a method"),
    }
    let unions = enum_parser(&document).unwrap();
    assert_eq!(unions.len(), 1);
    assert_eq!(unions[0].name, "BotCommandScope");
    assert_eq!(
        variants(&unions[0]),
        pairs(&[
            ("BotCommandScopeDefault", "BotCommandScopeDefault"),
            ("BotCommandScopeChat", "BotCommandScopeChat"),
        ])
    );
}

#[test]
fn object_fragment_with_otherwise_gives_two_variants() {
    let phrase = TelegramMethod::parse_return_type("object is returned, otherwise True is returned").unwrap();
    assert_eq!(phrase, "object or True");
    let ft = raw(&phrase, false).into_field_type("");
    assert_eq!(variants(&ft), pairs(&[("object", "object"), ("True", "True")]));
}

#[test]
fn only_the_leading_optional_marker_is_stripped() {
    let table = Table {
        preceding: heading("Chat", "A chat."),
        rows: vec![
            header(),
            row(&["title", "String", "Optional. Optional. "]),
            row(&["bio", "String", "Optional. Bio; see Optional. fields"]),
            row(&["name", "String", "Name. Optional. "]),
        ],
    };
    match TelegramTypeOrMethod::parse(&table).unwrap() {
        TelegramTypeOrMethod::Type(ty) => {
            assert!(ty.fields[0].telegram_type.is_optional);
            assert_eq!(ty.fields[0].doc, "Optional. ");
            assert_eq!(ty.fields[1].doc, "Bio; see Optional. fields");
            assert!(!ty.fields[2].telegram_type.is_optional);
            assert_eq!(ty.fields[2].doc, "Name. Optional. ");
        },
        _ => panic!("expected a type"),
    }
}

#[test]
fn reply_markup_field_types_file_one_union() {
    let mut registry = Registry::new();
    let phrase = "InlineKeyboardMarkup or ReplyKeyboardMarkup or ForceReply";
    raw(phrase, true).into_field_type("reply_markup").generate(&mut registry, &Vec::new()).unwrap();
    let before = registry.modules().len();
    raw(phrase, false).into_field_type("reply_markup").generate(&mut registry, &Vec::new()).unwrap();
    assert_eq!(registry.modules().len(), before);
    let unions: Vec<_> =
        registry.modules().iter().filter(|m| matches!(m.kind, TypeKind::Enum)).collect();
    assert_eq!(unions.len(), 1);
    assert_eq!(unions[0].module_type, "ReplyMarkup");
}
