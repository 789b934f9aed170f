//! Messages that the bot keeps, told apart by what they show.
use crate::ids::{ChannelId, MessageId, UserId};
use std::hash::{Hash, Hasher};
use vstd::prelude::*;

verus! {

/// A field of an embed.
#[derive(Debug)]
pub struct EmbedField {
    pub name: String,
    pub value: String,
    pub inline: bool,
}

/// The footer of an embed.
#[derive(Debug)]
pub struct EmbedFooter {
    pub icon_url: Option<String>,
    pub proxy_icon_url: Option<String>,
    pub text: String,
}

/// A picture in an embed.
#[derive(Debug)]
pub struct EmbedImage {
    pub height: u64,
    pub width: u64,
    pub proxy_url: String,
    pub url: String,
}

/// An embed, as far as it tells messages apart.
#[derive(Debug)]
pub struct Embed {
    pub colour: u32,
    pub description: Option<String>,
    pub fields: Vec<EmbedField>,
    pub footer: Option<EmbedFooter>,
    pub image: Option<EmbedImage>,
    pub thumbnail: Option<EmbedImage>,
    pub title: Option<String>,
    pub url: Option<String>,
}

/// What a message shows.
#[derive(Debug)]
pub enum MessageContent {
    Embed(Vec<Embed>),
    Plain(String),
}

/// A message that the bot keeps, with the hash of what it shows.
#[derive(Debug)]
pub struct Message {
    pub id: MessageId,
    pub sender: UserId,
    pub channel: ChannelId,
    pub content: MessageContent,
    /// After how many milliseconds the message goes away, if it does.
    pub timeout: Option<u64>,
    pub hash: u64,
}

/// One thing that goes into the hash of a message.
#[derive(Debug)]
pub enum HashPart {
    Colour(u32),
    Text(String),
    Flag(bool),
    Number(u64),
}

/// The contents of a [`HashPart`].
pub enum PartView {
    Colour(u32),
    Text(Seq<char>),
    Flag(bool),
    Number(u64),
}

impl View for HashPart {
    type V = PartView;

    open spec fn view(&self) -> PartView {
        match *self {
            HashPart::Colour(c) => PartView::Colour(c),
            HashPart::Text(s) => PartView::Text(s@),
            HashPart::Flag(b) => PartView::Flag(b),
            HashPart::Number(n) => PartView::Number(n),
        }
    }
}

/// The contents of parts.
pub open spec fn part_views(parts: Seq<HashPart>) -> Seq<PartView> {
    parts.map_values(|p: HashPart| p@)
}

/// A text that may be missing.
pub open spec fn optional_part(s: Option<String>) -> Seq<PartView> {
    match s {
        Some(s) => seq![PartView::Text(s@)],
        None => Seq::empty(),
    }
}

/// A field: its value, its name, and whether it is set beside others.
pub open spec fn field_parts(f: EmbedField) -> Seq<PartView> {
    seq![PartView::Text(f.value@), PartView::Text(f.name@), PartView::Flag(f.inline)]
}

/// Fields, in order.
pub open spec fn fields_parts(fields: Seq<EmbedField>) -> Seq<PartView>
    decreases fields.len(),
{
    if fields.len() == 0 {
        Seq::empty()
    } else {
        fields_parts(fields.drop_last()) + field_parts(fields.last())
    }
}

/// A footer: its pictures where there are any, and its text.
pub open spec fn footer_parts(footer: Option<EmbedFooter>) -> Seq<PartView> {
    match footer {
        Some(f) => optional_part(f.icon_url) + optional_part(f.proxy_icon_url) + seq![
            PartView::Text(f.text@),
        ],
        None => Seq::empty(),
    }
}

/// A picture: its size, and where it is found.
pub open spec fn image_parts(image: Option<EmbedImage>) -> Seq<PartView> {
    match image {
        Some(i) => seq![
            PartView::Number(i.height),
            PartView::Number(i.width),
            PartView::Text(i.proxy_url@),
            PartView::Text(i.url@),
        ],
        None => Seq::empty(),
    }
}

/// An embed: its colour, description, fields, footer, picture, thumbnail, title and address.
pub open spec fn embed_parts(e: Embed) -> Seq<PartView> {
    seq![PartView::Colour(e.colour)] + optional_part(e.description) + fields_parts(e.fields@)
        + footer_parts(e.footer) + image_parts(e.image) + image_parts(e.thumbnail) + optional_part(
        e.title,
    ) + optional_part(e.url)
}

/// Embeds, in order.
pub open spec fn embeds_parts(embeds: Seq<Embed>) -> Seq<PartView>
    decreases embeds.len(),
{
    if embeds.len() == 0 {
        Seq::empty()
    } else {
        embeds_parts(embeds.drop_last()) + embed_parts(embeds.last())
    }
}

/// What goes into the hash of a message.
pub open spec fn content_parts(content: MessageContent) -> Seq<PartView> {
    match content {
        MessageContent::Embed(embeds) => embeds_parts(embeds@),
        MessageContent::Plain(text) => seq![PartView::Text(text@)],
    }
}

/// Appends a part.
fn push_part(out: &mut Vec<HashPart>, part: HashPart)
    ensures
        part_views(final(out)@) == part_views(old(out)@).push(part@),
{
    out.push(part);
    assert(part_views(out@) =~= part_views(old(out)@).push(part@));
}

/// Appends a text.
fn push_text(out: &mut Vec<HashPart>, s: &String)
    ensures
        part_views(final(out)@) == part_views(old(out)@).push(PartView::Text(s@)),
{
    push_part(out, HashPart::Text(s.clone()));
}

/// Appends a text that may be missing.
fn push_optional(out: &mut Vec<HashPart>, s: &Option<String>)
    ensures
        part_views(final(out)@) == part_views(old(out)@) + optional_part(*s),
{
    if let Some(s) = s {
        push_text(out, s);
    }
    assert(part_views(out@) =~= part_views(old(out)@) + optional_part(*s));
}

/// Appends fields.
fn push_fields(out: &mut Vec<HashPart>, fields: &Vec<EmbedField>)
    ensures
        part_views(final(out)@) == part_views(old(out)@) + fields_parts(fields@),
{
    let ghost start = part_views(out@);
    let mut i: usize = 0;
    assert(fields@.take(0) =~= Seq::empty());
    assert(start =~= start + fields_parts(fields@.take(0)));
    while i < fields.len()
        invariant
            i <= fields@.len(),
            part_views(out@) == start + fields_parts(fields@.take(i as int)),
        decreases fields.len() - i,
    {
        let ghost before = part_views(out@);
        push_text(out, &fields[i].value);
        push_text(out, &fields[i].name);
        push_part(out, HashPart::Flag(fields[i].inline));
        assert(part_views(out@) =~= before + field_parts(fields@[i as int]));
        assert(fields@.take(i + 1).drop_last() =~= fields@.take(i as int));
        i += 1;
        assert(part_views(out@) =~= start + fields_parts(fields@.take(i as int)));
    }
    assert(fields@.take(i as int) =~= fields@);
}

/// Appends a footer, if there is one.
fn push_footer(out: &mut Vec<HashPart>, footer: &Option<EmbedFooter>)
    ensures
        part_views(final(out)@) == part_views(old(out)@) + footer_parts(*footer),
{
    if let Some(f) = footer {
        push_optional(out, &f.icon_url);
        push_optional(out, &f.proxy_icon_url);
        push_text(out, &f.text);
    }
    assert(part_views(out@) =~= part_views(old(out)@) + footer_parts(*footer));
}

/// Appends a picture, if there is one.
fn push_image(out: &mut Vec<HashPart>, image: &Option<EmbedImage>)
    ensures
        part_views(final(out)@) == part_views(old(out)@) + image_parts(*image),
{
    if let Some(i) = image {
        push_part(out, HashPart::Number(i.height));
        push_part(out, HashPart::Number(i.width));
        push_text(out, &i.proxy_url);
        push_text(out, &i.url);
    }
    assert(part_views(out@) =~= part_views(old(out)@) + image_parts(*image));
}

/// Appends an embed.
fn push_embed(out: &mut Vec<HashPart>, e: &Embed)
    ensures
        part_views(final(out)@) == part_views(old(out)@) + embed_parts(*e),
{
    push_part(out, HashPart::Colour(e.colour));
    push_optional(out, &e.description);
    push_fields(out, &e.fields);
    push_footer(out, &e.footer);
    push_image(out, &e.image);
    push_image(out, &e.thumbnail);
    push_optional(out, &e.title);
    push_optional(out, &e.url);
    assert(part_views(out@) =~= part_views(old(out)@) + embed_parts(*e));
}

impl Message {
    /// What goes into the hash of the message, in order. Who sent a message, where, and its number
    /// do not.
    pub fn hash_parts(&self) -> (r: Vec<HashPart>)
        ensures
            part_views(r@) == content_parts(self.content),
    {
        let mut out: Vec<HashPart> = Vec::new();
        match &self.content {
            MessageContent::Plain(text) => {
                push_text(&mut out, text);
                assert(part_views(out@) =~= content_parts(self.content));
            },
            MessageContent::Embed(embeds) => {
                let mut i: usize = 0;
                assert(embeds@.take(0) =~= Seq::empty());
                assert(part_views(out@) =~= embeds_parts(embeds@.take(0)));
                while i < embeds.len()
                    invariant
                        i <= embeds@.len(),
                        part_views(out@) == embeds_parts(embeds@.take(i as int)),
                    decreases embeds.len() - i,
                {
                    push_embed(&mut out, &embeds[i]);
                    assert(embeds@.take(i + 1).drop_last() =~= embeds@.take(i as int));
                    i += 1;
                }
                assert(embeds@.take(i as int) =~= embeds@);
            },
        }
        out
    }
}

/// `u32::hash`: gives a number to a hasher. What the hasher makes of it is left unsaid.
#[verifier::external_body]
fn feed_colour<H: Hasher>(colour: u32, state: &mut H) {
    colour.hash(state)
}

/// `String::hash`: gives a text to a hasher. What the hasher makes of it is left unsaid.
#[verifier::external_body]
fn feed_text<H: Hasher>(text: &String, state: &mut H) {
    text.hash(state)
}

/// `bool::hash`: gives a flag to a hasher. What the hasher makes of it is left unsaid.
#[verifier::external_body]
fn feed_flag<H: Hasher>(flag: bool, state: &mut H) {
    flag.hash(state)
}

/// `u64::hash`: gives a number to a hasher. What the hasher makes of it is left unsaid.
#[verifier::external_body]
fn feed_number<H: Hasher>(number: u64, state: &mut H) {
    number.hash(state)
}

impl Hash for Message {
    /// Gives what [`Message::hash_parts`] lists to a hasher, in order. What becomes of it depends on
    /// the hasher.
    fn hash<H: Hasher>(&self, state: &mut H) {
        let parts = self.hash_parts();
        let mut i: usize = 0;
        while i < parts.len()
            invariant
                i <= parts@.len(),
            decreases parts.len() - i,
        {
            match &parts[i] {
                HashPart::Colour(colour) => feed_colour(*colour, state),
                HashPart::Text(text) => feed_text(text, state),
                HashPart::Flag(flag) => feed_flag(*flag, state),
                HashPart::Number(number) => feed_number(*number, state),
            }
            i += 1;
        }
    }
}

impl PartialEq for Message {
    fn eq(&self, other: &Self) -> (r: bool) {
        self.hash == other.hash
    }
}

impl vstd::std_specs::cmp::PartialEqSpecImpl for Message {
    open spec fn obeys_eq_spec() -> bool {
        true
    }

    open spec fn eq_spec(&self, other: &Self) -> bool {
        self.hash == other.hash
    }
}

/// How managing messages can come to an end.
#[derive(Clone, Copy, Debug)]
pub enum MessageManagerError {
    Ended,
}

/// The messages that the bot keeps, and the bots that keep them.
pub struct MessageManager {
    pub player: Vec<Message>,
    pub bots: Vec<UserId>,
}

impl MessageManager {
    /// No messages yet.
    pub fn new(bots: Vec<UserId>) -> (r: MessageManager)
        ensures
            r.player@ == Seq::<Message>::empty(),
            r.bots@ == bots@,
    {
        MessageManager { player: Vec::new(), bots }
    }
}

/// What is hashed of several fields is what is hashed of each, one after another: its value, its name
/// and whether it stands in line.
pub proof fn law_every_field_is_hashed(a: Seq<EmbedField>, b: Seq<EmbedField>, field: EmbedField)
    ensures
        fields_parts(a + b) == fields_parts(a) + fields_parts(b),
        fields_parts(seq![field]) == seq![
            PartView::Text(field.value@),
            PartView::Text(field.name@),
            PartView::Flag(field.inline),
        ],
    decreases b.len(),
{
    let one = seq![field];
    reveal_with_fuel(fields_parts, 2);
    assert(one.drop_last() =~= Seq::<EmbedField>::empty());
    assert(fields_parts(one) =~= field_parts(field));
    if b.len() == 0 {
        assert(a + b =~= a);
        assert(fields_parts(a) + fields_parts(b) =~= fields_parts(a));
    } else {
        assert((a + b).drop_last() =~= a + b.drop_last());
        assert((a + b).last() == b.last());
        law_every_field_is_hashed(a, b.drop_last(), field);
        assert(fields_parts(a + b) =~= fields_parts(a) + fields_parts(b));
    }
}

/// What is hashed of several embeds is what is hashed of each, one after another, and a plain message
/// is hashed by its text.
pub proof fn law_every_embed_is_hashed(a: Seq<Embed>, b: Seq<Embed>, embed: Embed, text: String)
    ensures
        embeds_parts(a + b) == embeds_parts(a) + embeds_parts(b),
        embeds_parts(seq![embed]) == embed_parts(embed),
        content_parts(MessageContent::Plain(text)) == seq![PartView::Text(text@)],
    decreases b.len(),
{
    let one = seq![embed];
    reveal_with_fuel(embeds_parts, 2);
    assert(one.drop_last() =~= Seq::<Embed>::empty());
    assert(embeds_parts(one) =~= embed_parts(embed));
    if b.len() == 0 {
        assert(a + b =~= a);
        assert(embeds_parts(a) + embeds_parts(b) =~= embeds_parts(a));
    } else {
        assert((a + b).drop_last() =~= a + b.drop_last());
        assert((a + b).last() == b.last());
        law_every_embed_is_hashed(a, b.drop_last(), embed, text);
        assert(embeds_parts(a + b) =~= embeds_parts(a) + embeds_parts(b));
    }
}

/// Of an embed its colour is hashed first, and then what there is of its description, fields, footer,
/// image, thumbnail, title and address; a bare one is hashed by its colour alone.
pub proof fn law_all_of_an_embed_is_hashed(
    e: Embed,
    description: String,
    title: String,
    url: String,
    footer: EmbedFooter,
    image: EmbedImage,
)
    ensures
        embed_parts(e).len() > 0 && embed_parts(e)[0] == PartView::Colour(e.colour),
        e.description == Some(description) ==> embed_parts(e).contains(PartView::Text(description@)),
        e.title == Some(title) ==> embed_parts(e).contains(PartView::Text(title@)),
        e.url == Some(url) ==> embed_parts(e).contains(PartView::Text(url@)),
        e.footer == Some(footer) ==> embed_parts(e).contains(PartView::Text(footer.text@)),
        e.image == Some(image) || e.thumbnail == Some(image) ==> embed_parts(e).contains(
            PartView::Text(image.url@),
        ) && embed_parts(e).contains(PartView::Text(image.proxy_url@)) && embed_parts(e).contains(
            PartView::Number(image.height),
        ) && embed_parts(e).contains(PartView::Number(image.width)),
        e.description is None && e.fields@.len() == 0 && e.footer is None && e.image is None
            && e.thumbnail is None && e.title is None && e.url is None ==> embed_parts(e) == seq![
            PartView::Colour(e.colour),
        ],
{
    let p0 = seq![PartView::Colour(e.colour)];
    let p1 = p0 + optional_part(e.description);
    let p2 = p1 + fields_parts(e.fields@);
    let p3 = p2 + footer_parts(e.footer);
    let p4 = p3 + image_parts(e.image);
    let p5 = p4 + image_parts(e.thumbnail);
    let p6 = p5 + optional_part(e.title);
    let all = embed_parts(e);
    assert(all == p6 + optional_part(e.url));
    if e.description == Some(description) {
        assert(all[1] == PartView::Text(description@));
    }
    if e.footer == Some(footer) {
        assert(all[p3.len() - 1] == PartView::Text(footer.text@));
    }
    if e.image == Some(image) {
        assert(all[p3.len() as int] == PartView::Number(image.height));
        assert(all[p3.len() as int + 1] == PartView::Number(image.width));
        assert(all[p3.len() as int + 2] == PartView::Text(image.proxy_url@));
        assert(all[p3.len() as int + 3] == PartView::Text(image.url@));
    }
    if e.thumbnail == Some(image) {
        assert(all[p4.len() as int] == PartView::Number(image.height));
        assert(all[p4.len() as int + 1] == PartView::Number(image.width));
        assert(all[p4.len() as int + 2] == PartView::Text(image.proxy_url@));
        assert(all[p4.len() as int + 3] == PartView::Text(image.url@));
    }
    if e.title == Some(title) {
        assert(all[p5.len() as int] == PartView::Text(title@));
    }
    if e.url == Some(url) {
        assert(all[p6.len() as int] == PartView::Text(url@));
    }
}

} // verus!
