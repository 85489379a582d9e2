//! Message payloads, variable substitution over their text fields, and the
//! integrity fingerprint over their interactive components.
use sha2::{Digest, Sha256};
use vstd::prelude::*;
use vstd::utf8::{encode_utf8, encode_utf8_decode_utf8};

use crate::template::{substitute, MessageVariables};

verus! {

/// One choice of a select menu.
#[derive(Clone, Debug)]
pub struct SelectMenuOption {
    pub label: String,
    pub value: String,
    pub description: Option<String>,
}

#[derive(Clone, Debug)]
pub struct Button {
    pub custom_id: Option<String>,
    pub label: Option<String>,
    pub url: Option<String>,
}

#[derive(Clone, Debug)]
pub struct SelectMenu {
    pub custom_id: String,
    pub options: Vec<SelectMenuOption>,
    pub placeholder: Option<String>,
}

#[derive(Clone, Debug)]
pub struct TextInput {
    pub custom_id: String,
    pub label: String,
}

/// An interactive component of a message.
pub enum Component {
    ActionRow(Vec<Component>),
    Button(Button),
    SelectMenu(SelectMenu),
    TextInput(TextInput),
}

#[derive(Clone, Debug)]
pub struct EmbedAuthor {
    pub name: String,
    pub url: Option<String>,
    pub icon_url: Option<String>,
}

#[derive(Clone, Debug)]
pub struct EmbedFooter {
    pub text: String,
    pub icon_url: Option<String>,
}

#[derive(Clone, Debug)]
pub struct EmbedField {
    pub name: String,
    pub value: String,
    pub inline: bool,
}

#[derive(Clone, Debug)]
pub struct MessagePayloadEmbed {
    pub author: Option<EmbedAuthor>,
    pub color: Option<u32>,
    pub description: Option<String>,
    pub fields: Vec<EmbedField>,
    pub footer: Option<EmbedFooter>,
    pub image_url: Option<String>,
    pub thumbnail_url: Option<String>,
    pub timestamp: Option<String>,
    pub title: Option<String>,
    pub url: Option<String>,
}

/// A structured message.
pub struct MessagePayload {
    pub username: Option<String>,
    pub avatar_url: Option<String>,
    pub content: Option<String>,
    pub components: Vec<Component>,
    pub embeds: Vec<MessagePayloadEmbed>,
}

/// `after` is `before` substituted, where there is text.
pub open spec fn opt_substituted(
    before: Option<String>,
    after: Option<String>,
    vars: Seq<(Seq<char>, Seq<char>)>,
) -> bool {
    match before {
        Some(b) => after is Some && after->0@ == substitute(b@, vars),
        None => after is None,
    }
}

/// Text fields that variable substitution rewrites in place.
pub trait MessageVariablesReplace: Sized {
    /// `after` is `before` with each of its text fields substituted.
    spec fn substituted(before: Self, after: Self, vars: Seq<(Seq<char>, Seq<char>)>) -> bool;

    fn replace_variables(&mut self, variables: &MessageVariables)
        ensures
            Self::substituted(*old(self), *final(self), variables@),
    ;
}

impl MessageVariablesReplace for String {
    open spec fn substituted(before: String, after: String, vars: Seq<(Seq<char>, Seq<char>)>) -> bool {
        after@ == substitute(before@, vars)
    }

    fn replace_variables(&mut self, variables: &MessageVariables) {
        *self = variables.substitute_text(self.as_str());
    }
}

impl MessageVariablesReplace for EmbedAuthor {
    open spec fn substituted(
        before: EmbedAuthor,
        after: EmbedAuthor,
        vars: Seq<(Seq<char>, Seq<char>)>,
    ) -> bool {
        after.name@ == substitute(before.name@, vars) && after.url == before.url && after.icon_url
            == before.icon_url
    }

    fn replace_variables(&mut self, variables: &MessageVariables) {
        self.name.replace_variables(variables);
    }
}

impl MessageVariablesReplace for EmbedFooter {
    open spec fn substituted(
        before: EmbedFooter,
        after: EmbedFooter,
        vars: Seq<(Seq<char>, Seq<char>)>,
    ) -> bool {
        after.text@ == substitute(before.text@, vars) && after.icon_url == before.icon_url
    }

    fn replace_variables(&mut self, variables: &MessageVariables) {
        self.text.replace_variables(variables);
    }
}

impl MessageVariablesReplace for EmbedField {
    open spec fn substituted(
        before: EmbedField,
        after: EmbedField,
        vars: Seq<(Seq<char>, Seq<char>)>,
    ) -> bool {
        after.name@ == substitute(before.name@, vars) && after.value@ == substitute(
            before.value@,
            vars,
        ) && after.inline == before.inline
    }

    fn replace_variables(&mut self, variables: &MessageVariables) {
        self.name.replace_variables(variables);
        self.value.replace_variables(variables);
    }
}

fn replace_opt(text: &mut Option<String>, variables: &MessageVariables)
    ensures
        opt_substituted(*old(text), *final(text), variables@),
{
    match text {
        Some(t) => t.replace_variables(variables),
        None => {},
    }
}

impl MessageVariablesReplace for MessagePayloadEmbed {
    open spec fn substituted(
        before: MessagePayloadEmbed,
        after: MessagePayloadEmbed,
        vars: Seq<(Seq<char>, Seq<char>)>,
    ) -> bool {
        &&& opt_substituted(before.title, after.title, vars)
        &&& opt_substituted(before.description, after.description, vars)
        &&& match before.author {
            Some(a) => after.author is Some && EmbedAuthor::substituted(a, after.author->0, vars),
            None => after.author is None,
        }
        &&& match before.footer {
            Some(f) => after.footer is Some && EmbedFooter::substituted(f, after.footer->0, vars),
            None => after.footer is None,
        }
        &&& after.fields@.len() == before.fields@.len()
        &&& forall|i: int|
            0 <= i < before.fields@.len() ==> EmbedField::substituted(
                #[trigger] before.fields@[i],
                after.fields@[i],
                vars,
            )
        &&& after.color == before.color
        &&& after.image_url == before.image_url
        &&& after.thumbnail_url == before.thumbnail_url
        &&& after.timestamp == before.timestamp
        &&& after.url == before.url
    }

    fn replace_variables(&mut self, variables: &MessageVariables) {
        replace_opt(&mut self.title, variables);
        replace_opt(&mut self.description, variables);
        match &mut self.author {
            Some(a) => a.replace_variables(variables),
            None => {},
        }
        match &mut self.footer {
            Some(f) => f.replace_variables(variables),
            None => {},
        }
        let mut fields: Vec<EmbedField> = Vec::new();
        core::mem::swap(&mut fields, &mut self.fields);
        let ghost before = fields@;
        let mut done: Vec<EmbedField> = Vec::new();
        while fields.len() > 0
            invariant
                done@.len() + fields@.len() == before.len(),
                fields@ == before.subrange(done@.len() as int, before.len() as int),
                forall|i: int|
                    0 <= i < done@.len() ==> EmbedField::substituted(
                        #[trigger] before[i],
                        done@[i],
                        variables@,
                    ),
            decreases fields@.len(),
        {
            let mut f = fields.remove(0);
            f.replace_variables(variables);
            done.push(f);
            assert(fields@ =~= before.subrange(done@.len() as int, before.len() as int));
        }
        self.fields = done;
    }
}

impl MessageVariablesReplace for MessagePayload {
    open spec fn substituted(
        before: MessagePayload,
        after: MessagePayload,
        vars: Seq<(Seq<char>, Seq<char>)>,
    ) -> bool {
        &&& opt_substituted(before.content, after.content, vars)
        &&& after.embeds@.len() == before.embeds@.len()
        &&& forall|i: int|
            0 <= i < before.embeds@.len() ==> MessagePayloadEmbed::substituted(
                #[trigger] before.embeds@[i],
                after.embeds@[i],
                vars,
            )
        &&& after.username == before.username
        &&& after.avatar_url == before.avatar_url
        &&& after.components == before.components
    }

    fn replace_variables(&mut self, variables: &MessageVariables) {
        replace_opt(&mut self.content, variables);
        let mut embeds: Vec<MessagePayloadEmbed> = Vec::new();
        core::mem::swap(&mut embeds, &mut self.embeds);
        let ghost before = embeds@;
        let mut done: Vec<MessagePayloadEmbed> = Vec::new();
        while embeds.len() > 0
            invariant
                done@.len() + embeds@.len() == before.len(),
                embeds@ == before.subrange(done@.len() as int, before.len() as int),
                forall|i: int|
                    0 <= i < done@.len() ==> MessagePayloadEmbed::substituted(
                        #[trigger] before[i],
                        done@[i],
                        variables@,
                    ),
            decreases embeds@.len(),
        {
            let mut e = embeds.remove(0);
            e.replace_variables(variables);
            done.push(e);
            assert(embeds@ =~= before.subrange(done@.len() as int, before.len() as int));
        }
        self.embeds = done;
    }
}

/// The bytes that the fingerprint covers for one component: its identifier
/// and, for a select menu, the value of each option; for a row, those of its
/// components in order.
pub open spec fn component_bytes(c: Component) -> Seq<u8>
    decreases c,
{
    match c {
        Component::ActionRow(row) => components_bytes_upto(row@, row@.len() as int),
        Component::Button(b) => match b.custom_id {
            Some(id) => encode_utf8(id@),
            None => Seq::empty(),
        },
        Component::SelectMenu(m) => encode_utf8(m.custom_id@) + option_bytes(m.options@),
        Component::TextInput(t) => encode_utf8(t.custom_id@),
    }
}

/// The bytes of the first `n` components of `cs`, in order.
pub open spec fn components_bytes_upto(cs: Seq<Component>, n: int) -> Seq<u8>
    decreases cs, n,
{
    if n <= 0 || n > cs.len() {
        Seq::empty()
    } else {
        components_bytes_upto(cs, n - 1) + component_bytes(cs[n - 1])
    }
}

pub open spec fn components_bytes(cs: Seq<Component>) -> Seq<u8> {
    components_bytes_upto(cs, cs.len() as int)
}

/// The option values of a select menu, in order.
pub open spec fn option_bytes(os: Seq<SelectMenuOption>) -> Seq<u8>
    decreases os.len(),
{
    if os.len() == 0 {
        Seq::empty()
    } else {
        option_bytes(os.drop_last()) + encode_utf8(os.last().value@)
    }
}

/// The SHA-256 digest of some bytes.
pub uninterp spec fn sha256_of(b: Seq<u8>) -> Seq<u8>;

/// Two lowercase hexadecimal digits for each byte.
pub open spec fn hex_of(b: Seq<u8>) -> Seq<char>
    decreases b.len(),
{
    if b.len() == 0 {
        Seq::empty()
    } else {
        hex_of(b.drop_last()) + seq![hex_digit(b.last() / 16), hex_digit(b.last() % 16)]
    }
}

pub open spec fn hex_digit(n: u8) -> char {
    seq!['0', '1', '2', '3', '4', '5', '6', '7', '8', '9', 'a', 'b', 'c', 'd', 'e', 'f'][n as int]
}

/// The fingerprint of a list of components.
pub open spec fn integrity_of(cs: Seq<Component>) -> Seq<char> {
    hex_of(sha256_of(components_bytes(cs)))
}

/// Relies on `sha2::Sha256::digest`: the SHA-256 digest of `b`, 32 bytes.
#[verifier::external_body]
fn sha256(b: &Vec<u8>) -> (r: Vec<u8>)
    ensures
        r@ == sha256_of(b@),
        r@.len() == 32,
{
    Sha256::digest(b.as_slice()).to_vec()
}

/// Relies on `hex::encode`: two lowercase hexadecimal digits per byte, in order.
#[verifier::external_body]
fn hex_encode(b: &Vec<u8>) -> (r: String)
    ensures
        r@ == hex_of(b@),
{
    hex::encode(b)
}

fn push_str_bytes(out: &mut Vec<u8>, s: &String)
    ensures
        final(out)@ == old(out)@ + encode_utf8(s@),
{
    let b = s.as_str().as_bytes();
    let mut k: usize = 0;
    while k < b.len()
        invariant
            k <= b@.len(),
            b@ == encode_utf8(s@),
            out@ == old(out)@ + b@.subrange(0, k as int),
        decreases b.len() - k,
    {
        out.push(b[k]);
        assert(b@.subrange(0, k + 1) =~= b@.subrange(0, k as int).push(b@[k as int]));
        k += 1;
    }
    assert(b@.subrange(0, k as int) =~= b@);
}

/// Appends the fingerprint bytes of `c` to `out`.
fn push_component_bytes(out: &mut Vec<u8>, c: &Component)
    ensures
        final(out)@ == old(out)@ + component_bytes(*c),
    decreases c,
{
    match c {
        Component::ActionRow(row) => {
            let mut k: usize = 0;
            while k < row.len()
                invariant
                    k <= row@.len(),
                    c is ActionRow,
                    *row == c->ActionRow_0,
                    out@ == old(out)@ + components_bytes_upto(row@, k as int),
                decreases row.len() - k,
            {
                let ghost prev = out@;
                proof {
                    assert(*row == c->ActionRow_0);
                    assert(decreases_to!(*c => c->ActionRow_0));
                    assert(decreases_to!(*row => row@));
                    assert(decreases_to!(row@ => row@[k as int]));
                }
                push_component_bytes(out, &row[k]);
                proof {
                    assert(out@ =~= old(out)@ + components_bytes_upto(row@, k + 1));
                }
                k += 1;
            }
        },
        Component::Button(b) => {
            match &b.custom_id {
                Some(id) => push_str_bytes(out, id),
                None => {
                    assert(out@ =~= old(out)@ + Seq::<u8>::empty());
                },
            }
        },
        Component::SelectMenu(m) => {
            push_str_bytes(out, &m.custom_id);
            let mut k: usize = 0;
            while k < m.options.len()
                invariant
                    k <= m.options@.len(),
                    out@ == old(out)@ + encode_utf8(m.custom_id@) + option_bytes(
                        m.options@.take(k as int),
                    ),
                decreases m.options.len() - k,
            {
                push_str_bytes(out, &m.options[k].value);
                proof {
                    assert(m.options@.take(k + 1).drop_last() =~= m.options@.take(k as int));
                }
                k += 1;
            }
            assert(m.options@.take(k as int) =~= m.options@);
        },
        Component::TextInput(t) => push_str_bytes(out, &t.custom_id),
    }
}

/// The bytes that the fingerprint of these components covers.
pub fn integrity_bytes(components: &Vec<Component>) -> (r: Vec<u8>)
    ensures
        r@ == components_bytes(components@),
{
    let mut out: Vec<u8> = Vec::new();
    let mut k: usize = 0;
    while k < components.len()
        invariant
            k <= components@.len(),
            out@ == components_bytes_upto(components@, k as int),
        decreases components.len() - k,
    {
        push_component_bytes(&mut out, &components[k]);
        k += 1;
    }
    out
}

/// The fingerprint of a list of components: the hexadecimal SHA-256 digest
/// of its identifiers and option values.
pub fn components_integrity_hash(components: &Vec<Component>) -> (r: String)
    ensures
        r@ == integrity_of(components@),
{
    let bytes = integrity_bytes(components);
    let digest = sha256(&bytes);
    hex_encode(&digest)
}

/// A combined hash of the values that the integrity check covers.
pub trait MessageHashIntegrity {
    spec fn integrity_spec(&self) -> Seq<char>;

    fn integrity_hash(&self) -> (r: String)
        ensures
            r@ == self.integrity_spec(),
    ;
}

impl MessageHashIntegrity for MessagePayload {
    open spec fn integrity_spec(&self) -> Seq<char> {
        integrity_of(self.components@)
    }

    fn integrity_hash(&self) -> (r: String) {
        components_integrity_hash(&self.components)
    }
}

/// Two payloads with the same components have the same fingerprint, however
/// their content, embeds, username or avatar differ.
pub proof fn lemma_fingerprint_ignores_text(p: MessagePayload, q: MessagePayload)
    requires
        p.components@ == q.components@,
    ensures
        p.integrity_spec() == q.integrity_spec(),
{
}

proof fn lemma_components_bytes_concat(a: Seq<Component>, b: Seq<Component>, n: int)
    requires
        0 <= n <= b.len(),
    ensures
        components_bytes_upto(a + b, a.len() + n) == components_bytes(a) + components_bytes_upto(
            b,
            n,
        ),
    decreases n,
{
    if n == 0 {
        assert(components_bytes(a) + Seq::<u8>::empty() =~= components_bytes(a));
        lemma_components_prefix(a, b, a.len() as int);
    } else {
        lemma_components_bytes_concat(a, b, n - 1);
        assert((a + b)[a.len() + n - 1] == b[n - 1]);
        assert(components_bytes(a) + components_bytes_upto(b, n - 1) + component_bytes(b[n - 1])
            =~= components_bytes(a) + components_bytes_upto(b, n));
    }
}

proof fn lemma_components_prefix(a: Seq<Component>, b: Seq<Component>, n: int)
    requires
        0 <= n <= a.len(),
    ensures
        components_bytes_upto(a + b, n) == components_bytes_upto(a, n),
    decreases n,
{
    if n > 0 {
        lemma_components_prefix(a, b, n - 1);
        assert((a + b)[n - 1] == a[n - 1]);
    }
}

/// The bytes that the fingerprint covers for one component stand in the
/// digest input of every list, between those of the components before it
/// and those after it.
pub proof fn lemma_integrity_bytes_split(pre: Seq<Component>, c: Component, post: Seq<Component>)
    ensures
        components_bytes(pre + seq![c] + post) == components_bytes(pre) + component_bytes(c)
            + components_bytes(post),
{
    let a = pre + seq![c];
    lemma_components_bytes_concat(pre, seq![c], 1);
    assert(components_bytes_upto(seq![c], 1) =~= component_bytes(c)) by {
        assert(components_bytes_upto(seq![c], 0) =~= Seq::<u8>::empty());
    }
    assert(pre.len() + 1 == a.len());
    lemma_components_bytes_concat(a, post, post.len() as int);
}

/// Replacing one component of a list by one whose fingerprint bytes differ
/// (for instance, a renamed identifier) changes the digest input of the list.
pub proof fn lemma_replacing_component_changes_digest_input(
    pre: Seq<Component>,
    c: Component,
    d: Component,
    post: Seq<Component>,
)
    requires
        component_bytes(c) != component_bytes(d),
    ensures
        components_bytes(pre + seq![c] + post) != components_bytes(pre + seq![d] + post),
{
    lemma_integrity_bytes_split(pre, c, post);
    lemma_integrity_bytes_split(pre, d, post);
    let x = components_bytes(pre) + component_bytes(c) + components_bytes(post);
    let y = components_bytes(pre) + component_bytes(d) + components_bytes(post);
    let p = components_bytes(pre).len();
    if x == y {
        let lc = component_bytes(c).len();
        let ld = component_bytes(d).len();
        assert(x.len() == y.len());
        assert(lc == ld);
        assert(component_bytes(c) =~= x.subrange(p as int, (p + lc) as int));
        assert(component_bytes(d) =~= y.subrange(p as int, (p + ld) as int));
    }
}

/// Two different identifiers give different fingerprint bytes.
pub proof fn lemma_identifier_bytes_differ(x: Seq<char>, y: Seq<char>)
    requires
        x != y,
    ensures
        encode_utf8(x) != encode_utf8(y),
{
    encode_utf8_decode_utf8(x);
    encode_utf8_decode_utf8(y);
}

} // verus!
