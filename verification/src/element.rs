//! The closed enumeration of HTML element names and its one-byte wire codes.
//!
//! Codes are contiguous from 0 and never reach the list sentinel `255`:
//! the decoder rejects any byte outside the table.

use vstd::prelude::*;

verus! {

/// The possible HTML element names.
#[derive(Clone, Copy, Debug, PartialEq, Eq, Structural)]
pub enum ElementName {
    /// The `a` element.
    A,
    /// The `acronym` element.
    Acronym,
    /// The `address` element.
    Address,
    /// The `applet` element.
    Applet,
    /// The `area` element.
    Area,
    /// The `article` element.
    Article,
    /// The `aside` element.
    Aside,
    /// The `audio` element.
    Audio,
    /// The `b` element.
    B,
    /// The `base` element.
    Base,
    /// The `bdi` element.
    Bdi,
    /// The `bdo` element.
    Bdo,
    /// The `bgsound` element.
    Bgsound,
    /// The `big` element.
    Big,
    /// The `blink` element.
    Blink,
    /// The `blockquote` element.
    Blockquote,
    /// The `body` element.
    Body,
    /// The `br` element.
    Br,
    /// The `button` element.
    Button,
    /// The `canvas` element.
    Canvas,
    /// The `caption` element.
    Caption,
    /// The `center` element.
    Center,
    /// The `cite` element.
    Cite,
    /// The `code` element.
    Code,
    /// The `col` element.
    Col,
    /// The `colgroup` element.
    Colgroup,
    /// The `data` element.
    Data,
    /// The `datalist` element.
    Datalist,
    /// The `dd` element.
    Dd,
    /// The `del` element.
    Del,
    /// The `details` element.
    Details,
    /// The `dfn` element.
    Dfn,
    /// The `dialog` element.
    Dialog,
    /// The `dir` element.
    Dir,
    /// The `div` element.
    Div,
    /// The `dl` element.
    Dl,
    /// The `dt` element.
    Dt,
    /// The `em` element.
    Em,
    /// The `embed` element.
    Embed,
    /// The `fieldset` element.
    Fieldset,
    /// The `figcaption` element.
    Figcaption,
    /// The `figure` element.
    Figure,
    /// The `font` element.
    Font,
    /// The `footer` element.
    Footer,
    /// The `form` element.
    Form,
    /// The `frame` element.
    Frame,
    /// The `frameset` element.
    Frameset,
    /// The `h1` element.
    H1,
    /// The `h2` element.
    H2,
    /// The `h3` element.
    H3,
    /// The `h4` element.
    H4,
    /// The `h5` element.
    H5,
    /// The `h6` element.
    H6,
    /// The `head` element.
    Head,
    /// The `header` element.
    Header,
    /// The `hgroup` element.
    Hgroup,
    /// The `hr` element.
    Hr,
    /// The `html` element.
    Html,
    /// The `i` element.
    I,
    /// The `img` element.
    Img,
    /// The `input` element.
    Input,
    /// The `ins` element.
    Ins,
    /// The `isindex` element.
    Isindex,
    /// The `kbd` element.
    Kbd,
    /// The `label` element.
    Label,
    /// The `legend` element.
    Legend,
    /// The `li` element.
    Li,
    /// The `link` element.
    Link,
    /// The `listing` element.
    Listing,
    /// The `main` element.
    Main,
    /// The `map` element, renamed from the bare tag name, which collides
    /// with the verifier's vocabulary.
    ImageMap,
    /// The `mark` element.
    Mark,
    /// The `marquee` element.
    Marquee,
    /// The `meta` element.
    Meta,
    /// The `meter` element.
    Meter,
    /// The `multicol` element.
    Multicol,
    /// The `nav` element.
    Nav,
    /// The `nextid` element.
    Nextid,
    /// The `nobr` element.
    Nobr,
    /// The `noframes` element.
    Noframes,
    /// The `noscript` element.
    Noscript,
    /// The `object` element.
    Object,
    /// The `ol` element.
    Ol,
    /// The `optgroup` element.
    Optgroup,
    /// The `option` element.
    Option,
    /// The `output` element.
    Output,
    /// The `p` element.
    P,
    /// The `param` element.
    Param,
    /// The `plaintext` element.
    Plaintext,
    /// The `pre` element.
    Pre,
    /// The `progress` element.
    Progress,
    /// The `q` element.
    Q,
    /// The `rp` element.
    Rp,
    /// The `rt` element.
    Rt,
    /// The `ruby` element.
    Ruby,
    /// The `s` element.
    S,
    /// The `samp` element.
    Samp,
    /// The `section` element.
    Section,
    /// The `select` element.
    Select,
    /// The `small` element.
    Small,
    /// The `source` element.
    Source,
    /// The `spacer` element.
    Spacer,
    /// The `span` element.
    Span,
    /// The `strike` element.
    Strike,
    /// The `strong` element.
    Strong,
    /// The `style` element.
    Style,
    /// The `sub` element.
    Sub,
    /// The `summary` element.
    Summary,
    /// The `sup` element.
    Sup,
    /// The `table` element.
    Table,
    /// The `tbody` element.
    Tbody,
    /// The `td` element.
    Td,
    /// The `template` element.
    Template,
    /// The `textarea` element.
    Textarea,
    /// The `tfoot` element.
    Tfoot,
    /// The `th` element.
    Th,
    /// The `thead` element.
    Thead,
    /// The `time` element.
    Time,
    /// The `title` element.
    Title,
    /// The `tr` element.
    Tr,
    /// The `tt` element.
    Tt,
    /// The `track` element.
    Track,
    /// The `u` element.
    U,
    /// The `ul` element.
    Ul,
    /// The `var` element.
    Var,
    /// The `video` element.
    Video,
    /// The `wbr` element.
    Wbr,
    /// The `xmp` element.
    Xmp,
}

/// The one-byte wire code of an element name.
#[verifier::opaque]
pub open spec fn element_code(name: ElementName) -> u8 {
    match name {
        ElementName::A => 0,
        ElementName::Acronym => 1,
        ElementName::Address => 2,
        ElementName::Applet => 3,
        ElementName::Area => 4,
        ElementName::Article => 5,
        ElementName::Aside => 6,
        ElementName::Audio => 7,
        ElementName::B => 8,
        ElementName::Base => 9,
        ElementName::Bdi => 10,
        ElementName::Bdo => 11,
        ElementName::Bgsound => 12,
        ElementName::Big => 13,
        ElementName::Blink => 14,
        ElementName::Blockquote => 15,
        ElementName::Body => 16,
        ElementName::Br => 17,
        ElementName::Button => 18,
        ElementName::Canvas => 19,
        ElementName::Caption => 20,
        ElementName::Center => 21,
        ElementName::Cite => 22,
        ElementName::Code => 23,
        ElementName::Col => 24,
        ElementName::Colgroup => 25,
        ElementName::Data => 26,
        ElementName::Datalist => 27,
        ElementName::Dd => 28,
        ElementName::Del => 29,
        ElementName::Details => 30,
        ElementName::Dfn => 31,
        ElementName::Dialog => 32,
        ElementName::Dir => 33,
        ElementName::Div => 34,
        ElementName::Dl => 35,
        ElementName::Dt => 36,
        ElementName::Em => 37,
        ElementName::Embed => 38,
        ElementName::Fieldset => 39,
        ElementName::Figcaption => 40,
        ElementName::Figure => 41,
        ElementName::Font => 42,
        ElementName::Footer => 43,
        ElementName::Form => 44,
        ElementName::Frame => 45,
        ElementName::Frameset => 46,
        ElementName::H1 => 47,
        ElementName::H2 => 48,
        ElementName::H3 => 49,
        ElementName::H4 => 50,
        ElementName::H5 => 51,
        ElementName::H6 => 52,
        ElementName::Head => 53,
        ElementName::Header => 54,
        ElementName::Hgroup => 55,
        ElementName::Hr => 56,
        ElementName::Html => 57,
        ElementName::I => 58,
        ElementName::Img => 59,
        ElementName::Input => 60,
        ElementName::Ins => 61,
        ElementName::Isindex => 62,
        ElementName::Kbd => 63,
        ElementName::Label => 64,
        ElementName::Legend => 65,
        ElementName::Li => 66,
        ElementName::Link => 67,
        ElementName::Listing => 68,
        ElementName::Main => 69,
        ElementName::ImageMap => 70,
        ElementName::Mark => 71,
        ElementName::Marquee => 72,
        ElementName::Meta => 73,
        ElementName::Meter => 74,
        ElementName::Multicol => 75,
        ElementName::Nav => 76,
        ElementName::Nextid => 77,
        ElementName::Nobr => 78,
        ElementName::Noframes => 79,
        ElementName::Noscript => 80,
        ElementName::Object => 81,
        ElementName::Ol => 82,
        ElementName::Optgroup => 83,
        ElementName::Option => 84,
        ElementName::Output => 85,
        ElementName::P => 86,
        ElementName::Param => 87,
        ElementName::Plaintext => 88,
        ElementName::Pre => 89,
        ElementName::Progress => 90,
        ElementName::Q => 91,
        ElementName::Rp => 92,
        ElementName::Rt => 93,
        ElementName::Ruby => 94,
        ElementName::S => 95,
        ElementName::Samp => 96,
        ElementName::Section => 97,
        ElementName::Select => 98,
        ElementName::Small => 99,
        ElementName::Source => 100,
        ElementName::Spacer => 101,
        ElementName::Span => 102,
        ElementName::Strike => 103,
        ElementName::Strong => 104,
        ElementName::Style => 105,
        ElementName::Sub => 106,
        ElementName::Summary => 107,
        ElementName::Sup => 108,
        ElementName::Table => 109,
        ElementName::Tbody => 110,
        ElementName::Td => 111,
        ElementName::Template => 112,
        ElementName::Textarea => 113,
        ElementName::Tfoot => 114,
        ElementName::Th => 115,
        ElementName::Thead => 116,
        ElementName::Time => 117,
        ElementName::Title => 118,
        ElementName::Tr => 119,
        ElementName::Tt => 120,
        ElementName::Track => 121,
        ElementName::U => 122,
        ElementName::Ul => 123,
        ElementName::Var => 124,
        ElementName::Video => 125,
        ElementName::Wbr => 126,
        ElementName::Xmp => 127,
    }
}

/// The element name a wire code stands for, if any.
#[verifier::opaque]
pub open spec fn element_from_code(code: u8) -> Option<ElementName> {
    match code {
        0u8 => Some(ElementName::A),
        1u8 => Some(ElementName::Acronym),
        2u8 => Some(ElementName::Address),
        3u8 => Some(ElementName::Applet),
        4u8 => Some(ElementName::Area),
        5u8 => Some(ElementName::Article),
        6u8 => Some(ElementName::Aside),
        7u8 => Some(ElementName::Audio),
        8u8 => Some(ElementName::B),
        9u8 => Some(ElementName::Base),
        10u8 => Some(ElementName::Bdi),
        11u8 => Some(ElementName::Bdo),
        12u8 => Some(ElementName::Bgsound),
        13u8 => Some(ElementName::Big),
        14u8 => Some(ElementName::Blink),
        15u8 => Some(ElementName::Blockquote),
        16u8 => Some(ElementName::Body),
        17u8 => Some(ElementName::Br),
        18u8 => Some(ElementName::Button),
        19u8 => Some(ElementName::Canvas),
        20u8 => Some(ElementName::Caption),
        21u8 => Some(ElementName::Center),
        22u8 => Some(ElementName::Cite),
        23u8 => Some(ElementName::Code),
        24u8 => Some(ElementName::Col),
        25u8 => Some(ElementName::Colgroup),
        26u8 => Some(ElementName::Data),
        27u8 => Some(ElementName::Datalist),
        28u8 => Some(ElementName::Dd),
        29u8 => Some(ElementName::Del),
        30u8 => Some(ElementName::Details),
        31u8 => Some(ElementName::Dfn),
        32u8 => Some(ElementName::Dialog),
        33u8 => Some(ElementName::Dir),
        34u8 => Some(ElementName::Div),
        35u8 => Some(ElementName::Dl),
        36u8 => Some(ElementName::Dt),
        37u8 => Some(ElementName::Em),
        38u8 => Some(ElementName::Embed),
        39u8 => Some(ElementName::Fieldset),
        40u8 => Some(ElementName::Figcaption),
        41u8 => Some(ElementName::Figure),
        42u8 => Some(ElementName::Font),
        43u8 => Some(ElementName::Footer),
        44u8 => Some(ElementName::Form),
        45u8 => Some(ElementName::Frame),
        46u8 => Some(ElementName::Frameset),
        47u8 => Some(ElementName::H1),
        48u8 => Some(ElementName::H2),
        49u8 => Some(ElementName::H3),
        50u8 => Some(ElementName::H4),
        51u8 => Some(ElementName::H5),
        52u8 => Some(ElementName::H6),
        53u8 => Some(ElementName::Head),
        54u8 => Some(ElementName::Header),
        55u8 => Some(ElementName::Hgroup),
        56u8 => Some(ElementName::Hr),
        57u8 => Some(ElementName::Html),
        58u8 => Some(ElementName::I),
        59u8 => Some(ElementName::Img),
        60u8 => Some(ElementName::Input),
        61u8 => Some(ElementName::Ins),
        62u8 => Some(ElementName::Isindex),
        63u8 => Some(ElementName::Kbd),
        64u8 => Some(ElementName::Label),
        65u8 => Some(ElementName::Legend),
        66u8 => Some(ElementName::Li),
        67u8 => Some(ElementName::Link),
        68u8 => Some(ElementName::Listing),
        69u8 => Some(ElementName::Main),
        70u8 => Some(ElementName::ImageMap),
        71u8 => Some(ElementName::Mark),
        72u8 => Some(ElementName::Marquee),
        73u8 => Some(ElementName::Meta),
        74u8 => Some(ElementName::Meter),
        75u8 => Some(ElementName::Multicol),
        76u8 => Some(ElementName::Nav),
        77u8 => Some(ElementName::Nextid),
        78u8 => Some(ElementName::Nobr),
        79u8 => Some(ElementName::Noframes),
        80u8 => Some(ElementName::Noscript),
        81u8 => Some(ElementName::Object),
        82u8 => Some(ElementName::Ol),
        83u8 => Some(ElementName::Optgroup),
        84u8 => Some(ElementName::Option),
        85u8 => Some(ElementName::Output),
        86u8 => Some(ElementName::P),
        87u8 => Some(ElementName::Param),
        88u8 => Some(ElementName::Plaintext),
        89u8 => Some(ElementName::Pre),
        90u8 => Some(ElementName::Progress),
        91u8 => Some(ElementName::Q),
        92u8 => Some(ElementName::Rp),
        93u8 => Some(ElementName::Rt),
        94u8 => Some(ElementName::Ruby),
        95u8 => Some(ElementName::S),
        96u8 => Some(ElementName::Samp),
        97u8 => Some(ElementName::Section),
        98u8 => Some(ElementName::Select),
        99u8 => Some(ElementName::Small),
        100u8 => Some(ElementName::Source),
        101u8 => Some(ElementName::Spacer),
        102u8 => Some(ElementName::Span),
        103u8 => Some(ElementName::Strike),
        104u8 => Some(ElementName::Strong),
        105u8 => Some(ElementName::Style),
        106u8 => Some(ElementName::Sub),
        107u8 => Some(ElementName::Summary),
        108u8 => Some(ElementName::Sup),
        109u8 => Some(ElementName::Table),
        110u8 => Some(ElementName::Tbody),
        111u8 => Some(ElementName::Td),
        112u8 => Some(ElementName::Template),
        113u8 => Some(ElementName::Textarea),
        114u8 => Some(ElementName::Tfoot),
        115u8 => Some(ElementName::Th),
        116u8 => Some(ElementName::Thead),
        117u8 => Some(ElementName::Time),
        118u8 => Some(ElementName::Title),
        119u8 => Some(ElementName::Tr),
        120u8 => Some(ElementName::Tt),
        121u8 => Some(ElementName::Track),
        122u8 => Some(ElementName::U),
        123u8 => Some(ElementName::Ul),
        124u8 => Some(ElementName::Var),
        125u8 => Some(ElementName::Video),
        126u8 => Some(ElementName::Wbr),
        127u8 => Some(ElementName::Xmp),
        _ => None,
    }
}

impl ElementName {
    /// Returns the one-byte wire code of this element name.
    pub fn code(&self) -> (r: u8)
        ensures
            r == element_code(*self),
    {
        proof {
            reveal(element_code);
        }
        match *self {
            ElementName::A => 0,
            ElementName::Acronym => 1,
            ElementName::Address => 2,
            ElementName::Applet => 3,
            ElementName::Area => 4,
            ElementName::Article => 5,
            ElementName::Aside => 6,
            ElementName::Audio => 7,
            ElementName::B => 8,
            ElementName::Base => 9,
            ElementName::Bdi => 10,
            ElementName::Bdo => 11,
            ElementName::Bgsound => 12,
            ElementName::Big => 13,
            ElementName::Blink => 14,
            ElementName::Blockquote => 15,
            ElementName::Body => 16,
            ElementName::Br => 17,
            ElementName::Button => 18,
            ElementName::Canvas => 19,
            ElementName::Caption => 20,
            ElementName::Center => 21,
            ElementName::Cite => 22,
            ElementName::Code => 23,
            ElementName::Col => 24,
            ElementName::Colgroup => 25,
            ElementName::Data => 26,
            ElementName::Datalist => 27,
            ElementName::Dd => 28,
            ElementName::Del => 29,
            ElementName::Details => 30,
            ElementName::Dfn => 31,
            ElementName::Dialog => 32,
            ElementName::Dir => 33,
            ElementName::Div => 34,
            ElementName::Dl => 35,
            ElementName::Dt => 36,
            ElementName::Em => 37,
            ElementName::Embed => 38,
            ElementName::Fieldset => 39,
            ElementName::Figcaption => 40,
            ElementName::Figure => 41,
            ElementName::Font => 42,
            ElementName::Footer => 43,
            ElementName::Form => 44,
            ElementName::Frame => 45,
            ElementName::Frameset => 46,
            ElementName::H1 => 47,
            ElementName::H2 => 48,
            ElementName::H3 => 49,
            ElementName::H4 => 50,
            ElementName::H5 => 51,
            ElementName::H6 => 52,
            ElementName::Head => 53,
            ElementName::Header => 54,
            ElementName::Hgroup => 55,
            ElementName::Hr => 56,
            ElementName::Html => 57,
            ElementName::I => 58,
            ElementName::Img => 59,
            ElementName::Input => 60,
            ElementName::Ins => 61,
            ElementName::Isindex => 62,
            ElementName::Kbd => 63,
            ElementName::Label => 64,
            ElementName::Legend => 65,
            ElementName::Li => 66,
            ElementName::Link => 67,
            ElementName::Listing => 68,
            ElementName::Main => 69,
            ElementName::ImageMap => 70,
            ElementName::Mark => 71,
            ElementName::Marquee => 72,
            ElementName::Meta => 73,
            ElementName::Meter => 74,
            ElementName::Multicol => 75,
            ElementName::Nav => 76,
            ElementName::Nextid => 77,
            ElementName::Nobr => 78,
            ElementName::Noframes => 79,
            ElementName::Noscript => 80,
            ElementName::Object => 81,
            ElementName::Ol => 82,
            ElementName::Optgroup => 83,
            ElementName::Option => 84,
            ElementName::Output => 85,
            ElementName::P => 86,
            ElementName::Param => 87,
            ElementName::Plaintext => 88,
            ElementName::Pre => 89,
            ElementName::Progress => 90,
            ElementName::Q => 91,
            ElementName::Rp => 92,
            ElementName::Rt => 93,
            ElementName::Ruby => 94,
            ElementName::S => 95,
            ElementName::Samp => 96,
            ElementName::Section => 97,
            ElementName::Select => 98,
            ElementName::Small => 99,
            ElementName::Source => 100,
            ElementName::Spacer => 101,
            ElementName::Span => 102,
            ElementName::Strike => 103,
            ElementName::Strong => 104,
            ElementName::Style => 105,
            ElementName::Sub => 106,
            ElementName::Summary => 107,
            ElementName::Sup => 108,
            ElementName::Table => 109,
            ElementName::Tbody => 110,
            ElementName::Td => 111,
            ElementName::Template => 112,
            ElementName::Textarea => 113,
            ElementName::Tfoot => 114,
            ElementName::Th => 115,
            ElementName::Thead => 116,
            ElementName::Time => 117,
            ElementName::Title => 118,
            ElementName::Tr => 119,
            ElementName::Tt => 120,
            ElementName::Track => 121,
            ElementName::U => 122,
            ElementName::Ul => 123,
            ElementName::Var => 124,
            ElementName::Video => 125,
            ElementName::Wbr => 126,
            ElementName::Xmp => 127,
        }
    }

    /// Maps a wire code back to an element name, rejecting unknown codes.
    pub fn from_code(code: u8) -> (r: Option<ElementName>)
        ensures
            r == element_from_code(code),
    {
        proof {
            reveal(element_from_code);
        }
        match code {
            0u8 => Some(ElementName::A),
            1u8 => Some(ElementName::Acronym),
            2u8 => Some(ElementName::Address),
            3u8 => Some(ElementName::Applet),
            4u8 => Some(ElementName::Area),
            5u8 => Some(ElementName::Article),
            6u8 => Some(ElementName::Aside),
            7u8 => Some(ElementName::Audio),
            8u8 => Some(ElementName::B),
            9u8 => Some(ElementName::Base),
            10u8 => Some(ElementName::Bdi),
            11u8 => Some(ElementName::Bdo),
            12u8 => Some(ElementName::Bgsound),
            13u8 => Some(ElementName::Big),
            14u8 => Some(ElementName::Blink),
            15u8 => Some(ElementName::Blockquote),
            16u8 => Some(ElementName::Body),
            17u8 => Some(ElementName::Br),
            18u8 => Some(ElementName::Button),
            19u8 => Some(ElementName::Canvas),
            20u8 => Some(ElementName::Caption),
            21u8 => Some(ElementName::Center),
            22u8 => Some(ElementName::Cite),
            23u8 => Some(ElementName::Code),
            24u8 => Some(ElementName::Col),
            25u8 => Some(ElementName::Colgroup),
            26u8 => Some(ElementName::Data),
            27u8 => Some(ElementName::Datalist),
            28u8 => Some(ElementName::Dd),
            29u8 => Some(ElementName::Del),
            30u8 => Some(ElementName::Details),
            31u8 => Some(ElementName::Dfn),
            32u8 => Some(ElementName::Dialog),
            33u8 => Some(ElementName::Dir),
            34u8 => Some(ElementName::Div),
            35u8 => Some(ElementName::Dl),
            36u8 => Some(ElementName::Dt),
            37u8 => Some(ElementName::Em),
            38u8 => Some(ElementName::Embed),
            39u8 => Some(ElementName::Fieldset),
            40u8 => Some(ElementName::Figcaption),
            41u8 => Some(ElementName::Figure),
            42u8 => Some(ElementName::Font),
            43u8 => Some(ElementName::Footer),
            44u8 => Some(ElementName::Form),
            45u8 => Some(ElementName::Frame),
            46u8 => Some(ElementName::Frameset),
            47u8 => Some(ElementName::H1),
            48u8 => Some(ElementName::H2),
            49u8 => Some(ElementName::H3),
            50u8 => Some(ElementName::H4),
            51u8 => Some(ElementName::H5),
            52u8 => Some(ElementName::H6),
            53u8 => Some(ElementName::Head),
            54u8 => Some(ElementName::Header),
            55u8 => Some(ElementName::Hgroup),
            56u8 => Some(ElementName::Hr),
            57u8 => Some(ElementName::Html),
            58u8 => Some(ElementName::I),
            59u8 => Some(ElementName::Img),
            60u8 => Some(ElementName::Input),
            61u8 => Some(ElementName::Ins),
            62u8 => Some(ElementName::Isindex),
            63u8 => Some(ElementName::Kbd),
            64u8 => Some(ElementName::Label),
            65u8 => Some(ElementName::Legend),
            66u8 => Some(ElementName::Li),
            67u8 => Some(ElementName::Link),
            68u8 => Some(ElementName::Listing),
            69u8 => Some(ElementName::Main),
            70u8 => Some(ElementName::ImageMap),
            71u8 => Some(ElementName::Mark),
            72u8 => Some(ElementName::Marquee),
            73u8 => Some(ElementName::Meta),
            74u8 => Some(ElementName::Meter),
            75u8 => Some(ElementName::Multicol),
            76u8 => Some(ElementName::Nav),
            77u8 => Some(ElementName::Nextid),
            78u8 => Some(ElementName::Nobr),
            79u8 => Some(ElementName::Noframes),
            80u8 => Some(ElementName::Noscript),
            81u8 => Some(ElementName::Object),
            82u8 => Some(ElementName::Ol),
            83u8 => Some(ElementName::Optgroup),
            84u8 => Some(ElementName::Option),
            85u8 => Some(ElementName::Output),
            86u8 => Some(ElementName::P),
            87u8 => Some(ElementName::Param),
            88u8 => Some(ElementName::Plaintext),
            89u8 => Some(ElementName::Pre),
            90u8 => Some(ElementName::Progress),
            91u8 => Some(ElementName::Q),
            92u8 => Some(ElementName::Rp),
            93u8 => Some(ElementName::Rt),
            94u8 => Some(ElementName::Ruby),
            95u8 => Some(ElementName::S),
            96u8 => Some(ElementName::Samp),
            97u8 => Some(ElementName::Section),
            98u8 => Some(ElementName::Select),
            99u8 => Some(ElementName::Small),
            100u8 => Some(ElementName::Source),
            101u8 => Some(ElementName::Spacer),
            102u8 => Some(ElementName::Span),
            103u8 => Some(ElementName::Strike),
            104u8 => Some(ElementName::Strong),
            105u8 => Some(ElementName::Style),
            106u8 => Some(ElementName::Sub),
            107u8 => Some(ElementName::Summary),
            108u8 => Some(ElementName::Sup),
            109u8 => Some(ElementName::Table),
            110u8 => Some(ElementName::Tbody),
            111u8 => Some(ElementName::Td),
            112u8 => Some(ElementName::Template),
            113u8 => Some(ElementName::Textarea),
            114u8 => Some(ElementName::Tfoot),
            115u8 => Some(ElementName::Th),
            116u8 => Some(ElementName::Thead),
            117u8 => Some(ElementName::Time),
            118u8 => Some(ElementName::Title),
            119u8 => Some(ElementName::Tr),
            120u8 => Some(ElementName::Tt),
            121u8 => Some(ElementName::Track),
            122u8 => Some(ElementName::U),
            123u8 => Some(ElementName::Ul),
            124u8 => Some(ElementName::Var),
            125u8 => Some(ElementName::Video),
            126u8 => Some(ElementName::Wbr),
            127u8 => Some(ElementName::Xmp),
            _ => None,
        }
    }
}

/// Decoding inverts encoding: the code of every element name maps back to it.
pub proof fn lemma_element_code_inverse(name: ElementName)
    ensures
        element_from_code(element_code(name)) == Some(name),
{
    reveal(element_code);
    reveal(element_from_code);
}

/// No element-name code collides with the list sentinel `255`.
pub proof fn lemma_element_code_not_sentinel(name: ElementName)
    ensures
        element_code(name) != 255,
{
    reveal(element_code);
}

} // verus!
