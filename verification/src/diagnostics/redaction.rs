//! Taking registered secrets out of text, and out of everything that holds
//! text.
//!
//! A value that leaves in an export is seen here as a [`Tree`]: its numbers,
//! its texts, and the fixed names its variants are written under. Texts are
//! swept. A name that a secret would reach into cannot be swept, because the
//! value could not be read back, so a value that holds one is refused whole.

use vstd::prelude::*;

use crate::text;

verus! {

/// Text substituted for anything the redactor recognizes as sensitive.
pub const REDACTION_PLACEHOLDER: &'static str = "[redacted]";

/// Fewest bytes a secret has. Redacting shorter values would corrupt unrelated
/// text without protecting anything.
pub const MIN_SECRET_BYTES: usize = 4;

/// What a value is written as.
pub enum Tree {
    Null,
    Flag(bool),
    Number(int),
    /// Free text, which is swept.
    Text(Seq<char>),
    /// The fixed name of a variant, which has to stay as it is.
    Name(Seq<char>),
    List(Seq<Tree>),
}

impl Tree {
    /// The parts of a list.
    pub open spec fn parts(self) -> Seq<Tree> {
        match self {
            Self::List(parts) => parts,
            _ => Seq::empty(),
        }
    }
}

/// A text with each secret replaced in turn.
pub open spec fn redacted(secrets: Seq<Seq<char>>, text: Seq<char>) -> Seq<char>
    decreases secrets.len(),
{
    if secrets.len() == 0 {
        text
    } else {
        text::replaced(
            redacted(secrets.drop_last(), text),
            secrets.last(),
            REDACTION_PLACEHOLDER@,
        )
    }
}

/// A value with every text in it redacted.
pub open spec fn swept(secrets: Seq<Seq<char>>, tree: Tree) -> Tree
    decreases tree,
{
    match tree {
        Tree::Text(text) => Tree::Text(redacted(secrets, text)),
        Tree::List(parts) => Tree::List(
            Seq::new(
                parts.len(),
                |i: int|
                    if 0 <= i < parts.len() {
                        swept(secrets, parts[i])
                    } else {
                        Tree::Null
                    },
            ),
        ),
        _ => tree,
    }
}

/// Whether no secret reaches into a fixed name of a value.
pub open spec fn names_kept(secrets: Seq<Seq<char>>, tree: Tree) -> bool
    decreases tree,
{
    match tree {
        Tree::Name(name) => redacted(secrets, name) == name,
        Tree::List(parts) => forall|i: int|
            0 <= i < parts.len() ==> names_kept(secrets, #[trigger] parts[i]),
        _ => true,
    }
}

/// Whether `part` stands in any text or name of a value.
pub open spec fn holds(tree: Tree, part: Seq<char>) -> bool
    decreases tree,
{
    match tree {
        Tree::Text(text) => text::contains_text(text, part),
        Tree::Name(name) => text::contains_text(name, part),
        Tree::List(parts) => exists|i: int| 0 <= i < parts.len() && holds(#[trigger] parts[i], part),
        _ => false,
    }
}

/// A list whose parts are the swept parts of another is that list swept.
pub(crate) proof fn lemma_swept_list(secrets: Seq<Seq<char>>, before: Seq<Tree>, after: Seq<Tree>)
    requires
        before.len() == after.len(),
        forall|i: int| 0 <= i < before.len() ==> #[trigger] after[i] == swept(secrets, before[i]),
    ensures
        Tree::List(after) == swept(secrets, Tree::List(before)),
{
    let parts = swept(secrets, Tree::List(before)).parts();
    assert(parts =~= after);
}

/// A text that holds no secret is redacted to itself, however many secrets are
/// registered.
pub proof fn a_text_without_secrets_is_left_alone(secrets: Seq<Seq<char>>, text: Seq<char>)
    requires
        forall|i: int|
            0 <= i < secrets.len() ==> !text::contains_text(text, #[trigger] secrets[i]),
    ensures
        redacted(secrets, text) == text,
    decreases secrets.len(),
{
    if secrets.len() > 0 {
        let fewer = secrets.drop_last();
        assert forall|i: int| 0 <= i < fewer.len() implies !text::contains_text(
            text,
            #[trigger] fewer[i],
        ) by {
            assert(fewer[i] == secrets[i]);
        }
        a_text_without_secrets_is_left_alone(fewer, text);
        assert(!text::contains_text(text, secrets[secrets.len() - 1]));
        text::replacing_leaves_the_rest(text, secrets.last(), REDACTION_PLACEHOLDER@);
    }
}

/// Whether every secret is one that can never overlap the placeholder.
pub open spec fn all_clear(secrets: Seq<Seq<char>>) -> bool {
    forall|i: int|
        0 <= i < secrets.len() ==> text::is_clear_of(#[trigger] secrets[i], REDACTION_PLACEHOLDER@)
}

/// Redacting keeps a place no secret reaches over, and goes piece by piece
/// around it.
proof fn lemma_redacting_splits(
    secrets: Seq<Seq<char>>,
    left: Seq<char>,
    right: Seq<char>,
    more: Seq<Seq<char>>,
)
    requires
        all_clear(secrets),
        forall|i: int| 0 <= i < secrets.len() ==> text::splits(left, right, #[trigger] secrets[i]),
        all_clear(more),
        forall|i: int| 0 <= i < more.len() ==> text::splits(left, right, #[trigger] more[i]),
    ensures
        redacted(secrets, left + right) == redacted(secrets, left) + redacted(secrets, right),
        forall|i: int|
            0 <= i < more.len() ==> text::splits(
                redacted(secrets, left),
                redacted(secrets, right),
                #[trigger] more[i],
            ),
    decreases secrets.len(),
{
    reveal_strlit("[redacted]");
    let by = REDACTION_PLACEHOLDER@;
    if secrets.len() > 0 {
        let fewer = secrets.drop_last();
        let last = secrets.last();
        assert(last == secrets[secrets.len() - 1]);
        assert forall|i: int| 0 <= i < fewer.len() implies text::is_clear_of(
            #[trigger] fewer[i],
            by,
        ) && text::splits(left, right, fewer[i]) by {
            assert(fewer[i] == secrets[i]);
        }
        lemma_redacting_splits(fewer, left, right, more);
        lemma_redacting_splits(fewer, left, right, seq![last]);
        let before = redacted(fewer, left);
        let after = redacted(fewer, right);
        assert(text::splits(before, after, seq![last][0]));
        text::replacing_goes_piece_by_piece(before, after, last, by);
        assert forall|i: int| 0 <= i < more.len() implies text::splits(
            redacted(secrets, left),
            redacted(secrets, right),
            #[trigger] more[i],
        ) by {
            text::replacing_keeps_the_split(before, after, last, by, more[i]);
        }
    }
}

/// Redacting goes piece by piece: at a place that no occurrence of a secret
/// reaches over, what comes before and what comes after are each redacted on
/// their own.
pub proof fn redacting_goes_piece_by_piece(
    secrets: Seq<Seq<char>>,
    left: Seq<char>,
    right: Seq<char>,
)
    requires
        all_clear(secrets),
        forall|i: int| 0 <= i < secrets.len() ==> text::splits(left, right, #[trigger] secrets[i]),
    ensures
        redacted(secrets, left + right) == redacted(secrets, left) + redacted(secrets, right),
{
    lemma_redacting_splits(secrets, left, right, Seq::empty());
}

/// Whether a character of a text lies inside an occurrence of a secret.
pub open spec fn is_covered(secrets: Seq<Seq<char>>, text: Seq<char>, index: int) -> bool {
    exists|i: int, position: int|
        0 <= i < secrets.len() && #[trigger] text::stands_at(text, secrets[i], position) && position
            <= index < position + secrets[i].len()
}

/// A character outside every occurrence of a secret stands in the redacted text,
/// between what the text before it and what the text after it are redacted to.
pub proof fn a_character_outside_every_secret_is_kept(
    secrets: Seq<Seq<char>>,
    text: Seq<char>,
    index: int,
)
    requires
        all_clear(secrets),
        forall|i: int| 0 <= i < secrets.len() ==> (#[trigger] secrets[i]).len() > 0,
        0 <= index < text.len(),
        !is_covered(secrets, text, index),
    ensures
        redacted(secrets, text) == redacted(secrets, text.take(index)) + seq![text[index]]
            + redacted(secrets, text.skip(index + 1)),
{
    let before = text.take(index);
    let one = seq![text[index]];
    let after = text.skip(index + 1);
    assert(before + (one + after) =~= text);
    assert(one + after =~= text.skip(index));
    assert forall|i: int| 0 <= i < secrets.len() implies text::splits(
        before,
        one + after,
        #[trigger] secrets[i],
    ) by {
        assert forall|position: int| position < before.len() < position + secrets[i].len() implies !#[trigger] text::stands_at(
            before + (one + after),
            secrets[i],
            position,
        ) by {
            if text::stands_at(text, secrets[i], position) {
                assert(is_covered(secrets, text, index));
            }
        }
    }
    redacting_goes_piece_by_piece(secrets, before, one + after);
    assert forall|i: int| 0 <= i < secrets.len() implies text::splits(
        one,
        after,
        #[trigger] secrets[i],
    ) by {
        assert forall|position: int| position < one.len() < position + secrets[i].len() implies !#[trigger] text::stands_at(
            one + after,
            secrets[i],
            position,
        ) by {
            if text::stands_at(one + after, secrets[i], position) {
                assert(text.subrange(position + index, position + index + secrets[i].len())
                    =~= (one + after).subrange(position, position + secrets[i].len()));
                assert(text::stands_at(text, secrets[i], position + index));
                assert(is_covered(secrets, text, index));
            }
        }
    }
    redacting_goes_piece_by_piece(secrets, one, after);
    assert forall|i: int| 0 <= i < secrets.len() implies !text::contains_text(
        one,
        #[trigger] secrets[i],
    ) by {
        if text::contains_text(one, secrets[i]) {
            let position = choose|position: int| text::stands_at(one, secrets[i], position);
            assert(text.subrange(position + index, position + index + secrets[i].len())
                =~= one.subrange(position, position + secrets[i].len()));
            assert(text::stands_at(text, secrets[i], position + index));
            assert(is_covered(secrets, text, index));
        }
    }
    a_text_without_secrets_is_left_alone(secrets, one);
    assert(redacted(secrets, before) + (one + redacted(secrets, after)) =~= redacted(
        secrets,
        before,
    ) + one + redacted(secrets, after));
}

/// The characters outside every occurrence of a secret all stand in the redacted
/// text, in the order they had.
pub proof fn what_is_kept_keeps_its_order(
    secrets: Seq<Seq<char>>,
    text: Seq<char>,
    first: int,
    second: int,
)
    requires
        all_clear(secrets),
        forall|i: int| 0 <= i < secrets.len() ==> (#[trigger] secrets[i]).len() > 0,
        0 <= first < second < text.len(),
        !is_covered(secrets, text, first),
        !is_covered(secrets, text, second),
    ensures
        ({
            let at = redacted(secrets, text.take(first)).len() as int;
            let later = redacted(secrets, text.take(second)).len() as int;
            let result = redacted(secrets, text);
            &&& 0 <= at < later < result.len()
            &&& result[at] == text[first]
            &&& result[later] == text[second]
        }),
{
    a_character_outside_every_secret_is_kept(secrets, text, first);
    a_character_outside_every_secret_is_kept(secrets, text, second);
    let start = text.take(second);
    assert(!is_covered(secrets, start, first)) by {
        if is_covered(secrets, start, first) {
            let (i, position) = choose|i: int, position: int|
                0 <= i < secrets.len() && #[trigger] text::stands_at(start, secrets[i], position)
                    && position <= first < position + secrets[i].len();
            assert(text.subrange(position, position + secrets[i].len()) =~= start.subrange(
                position,
                position + secrets[i].len(),
            ));
            assert(text::stands_at(text, secrets[i], position));
        }
    }
    a_character_outside_every_secret_is_kept(secrets, start, first);
    assert(start.take(first) =~= text.take(first));
}

/// A secret on its own is redacted to the placeholder, when no other secret
/// stands in it.
pub proof fn a_secret_is_replaced_by_the_placeholder(secrets: Seq<Seq<char>>, secret: Seq<char>)
    requires
        all_clear(secrets),
        secrets.contains(secret),
        secret.len() > 0,
        forall|i: int|
            0 <= i < secrets.len() && text::contains_text(secret, #[trigger] secrets[i])
                ==> secrets[i] == secret,
    ensures
        redacted(secrets, secret) == "[redacted]"@,
    decreases secrets.len(),
{
    reveal_strlit("[redacted]");
    let by = REDACTION_PLACEHOLDER@;
    let fewer = secrets.drop_last();
    let last = secrets.last();
    assert(last == secrets[secrets.len() - 1]);
    assert forall|i: int| 0 <= i < fewer.len() implies text::is_clear_of(#[trigger] fewer[i], by)
        && (text::contains_text(secret, fewer[i]) ==> fewer[i] == secret) by {
        assert(fewer[i] == secrets[i]);
    }
    if fewer.contains(secret) {
        a_secret_is_replaced_by_the_placeholder(fewer, secret);
        assert(!text::contains_text(by, last)) by {
            if text::contains_text(by, last) {
                let position = choose|position: int| text::stands_at(by, last, position);
                if last.len() > 0 {
                    assert forall|k: int| 0 <= k < by.len() && 0 <= k - position < last.len() implies #[trigger] by[k]
                        == last[k - position] by {
                        assert(by.subrange(position, position + last.len())[k - position]
                            == last[k - position]);
                    }
                    assert(text::agrees_at(last, by, position));
                } else {
                    assert(text::stands_at(secret, last, 0)) by {
                        assert(secret.subrange(0, 0) =~= last);
                    }
                }
            }
        }
        text::replacing_leaves_the_rest(by, last, by);
    } else {
        let at = choose|i: int| 0 <= i < secrets.len() && secrets[i] == secret;
        if at < secrets.len() - 1 {
            assert(fewer[at] == secret);
        }
        assert forall|i: int| 0 <= i < fewer.len() implies !text::contains_text(
            secret,
            #[trigger] fewer[i],
        ) by {
            if text::contains_text(secret, fewer[i]) {
                assert(fewer.contains(secret));
            }
        }
        a_text_without_secrets_is_left_alone(fewer, secret);
        text::replacing_the_whole_text(secret, by);
    }
}

/// One occurrence of one secret leaves everything around it as it was.
pub proof fn around_a_secret_nothing_changes(
    secrets: Seq<Seq<char>>,
    before: Seq<char>,
    secret: Seq<char>,
    after: Seq<char>,
)
    requires
        all_clear(secrets),
        secrets.contains(secret),
        secret.len() > 0,
        forall|i: int, position: int|
            0 <= i < secrets.len() && #[trigger] text::stands_at(
                before + secret + after,
                secrets[i],
                position,
            ) ==> secrets[i] == secret && position == before.len(),
    ensures
        redacted(secrets, before + secret + after) == before + "[redacted]"@ + after,
{
    let whole = before + secret + after;
    assert(before + (secret + after) =~= whole);
    assert forall|i: int| 0 <= i < secrets.len() implies text::splits(
        before,
        secret + after,
        #[trigger] secrets[i],
    ) by {
        assert forall|position: int| position < before.len() < position + secrets[i].len() implies !#[trigger] text::stands_at(
            before + (secret + after),
            secrets[i],
            position,
        ) by {
            assert(!text::stands_at(whole, secrets[i], position));
        }
    }
    redacting_goes_piece_by_piece(secrets, before, secret + after);
    assert forall|i: int, position: int|
        0 <= i < secrets.len() && #[trigger] text::stands_at(
            secret + after,
            secrets[i],
            position,
        ) implies secrets[i] == secret && position == 0 by {
        assert(whole.subrange(
            position + before.len(),
            position + before.len() + secrets[i].len(),
        ) =~= (secret + after).subrange(position, position + secrets[i].len()));
        assert(text::stands_at(whole, secrets[i], position + before.len()));
    }
    assert forall|i: int| 0 <= i < secrets.len() implies text::splits(
        secret,
        after,
        #[trigger] secrets[i],
    ) by {
        assert forall|position: int| position < secret.len() < position + secrets[i].len() implies !#[trigger] text::stands_at(
            secret + after,
            secrets[i],
            position,
        ) by {
            if text::stands_at(secret + after, secrets[i], position) {
                assert(position == 0 && secrets[i] == secret);
            }
        }
    }
    redacting_goes_piece_by_piece(secrets, secret, after);
    assert forall|i: int| 0 <= i < secrets.len() implies !text::contains_text(
        before,
        #[trigger] secrets[i],
    ) && !text::contains_text(after, secrets[i]) && (text::contains_text(secret, secrets[i])
        ==> secrets[i] == secret) by {
        if text::contains_text(before, secrets[i]) {
            let position = choose|position: int| text::stands_at(before, secrets[i], position);
            assert(whole.subrange(position, position + secrets[i].len()) =~= before.subrange(
                position,
                position + secrets[i].len(),
            ));
            assert(text::stands_at(whole, secrets[i], position));
        }
        if text::contains_text(after, secrets[i]) {
            let position = choose|position: int| text::stands_at(after, secrets[i], position);
            let moved = position + before.len() + secret.len();
            assert(whole.subrange(moved, moved + secrets[i].len()) =~= after.subrange(
                position,
                position + secrets[i].len(),
            ));
            assert(text::stands_at(whole, secrets[i], moved));
        }
        if text::contains_text(secret, secrets[i]) {
            let position = choose|position: int| text::stands_at(secret, secrets[i], position);
            let moved = position + before.len();
            assert(whole.subrange(moved, moved + secrets[i].len()) =~= secret.subrange(
                position,
                position + secrets[i].len(),
            ));
            assert(text::stands_at(whole, secrets[i], moved));
        }
    }
    a_text_without_secrets_is_left_alone(secrets, before);
    a_text_without_secrets_is_left_alone(secrets, after);
    a_secret_is_replaced_by_the_placeholder(secrets, secret);
    assert(before + ("[redacted]"@ + after) =~= before + "[redacted]"@ + after);
}

/// A value that holds no secret anywhere is swept to itself, and nothing in it
/// is refused.
pub proof fn a_value_without_secrets_is_left_alone(secrets: Seq<Seq<char>>, tree: Tree)
    requires
        forall|i: int| 0 <= i < secrets.len() ==> !holds(tree, #[trigger] secrets[i]),
    ensures
        names_kept(secrets, tree),
        swept(secrets, tree) == tree,
    decreases tree,
{
    match tree {
        Tree::Text(text) => {
            assert forall|i: int| 0 <= i < secrets.len() implies !text::contains_text(
                text,
                #[trigger] secrets[i],
            ) by {
                assert(!holds(tree, secrets[i]));
            }
            a_text_without_secrets_is_left_alone(secrets, text);
        },
        Tree::Name(name) => {
            assert forall|i: int| 0 <= i < secrets.len() implies !text::contains_text(
                name,
                #[trigger] secrets[i],
            ) by {
                assert(!holds(tree, secrets[i]));
            }
            a_text_without_secrets_is_left_alone(secrets, name);
        },
        Tree::List(parts) => {
            assert forall|k: int| 0 <= k < parts.len() implies names_kept(
                secrets,
                #[trigger] parts[k],
            ) && swept(secrets, parts[k]) == parts[k] by {
                assert forall|i: int| 0 <= i < secrets.len() implies !holds(
                    parts[k],
                    #[trigger] secrets[i],
                ) by {
                    assert(!holds(tree, secrets[i]));
                }
                a_value_without_secrets_is_left_alone(secrets, parts[k]);
            }
            assert(swept(secrets, tree).parts() =~= parts);
        },
        _ => {},
    }
}

/// A registered secret never survives: redacted text does not hold it, unless
/// the secret is one that can overlap the placeholder itself.
pub proof fn redacted_text_holds_no_secret(
    secrets: Seq<Seq<char>>,
    text: Seq<char>,
    secret: Seq<char>,
)
    requires
        secrets.contains(secret),
        secret.len() > 0,
        text::is_clear_of(secret, REDACTION_PLACEHOLDER@),
    ensures
        !text::contains_text(redacted(secrets, text), secret),
    decreases secrets.len(),
{
    reveal_strlit("[redacted]");
    let result = redacted(secrets, text);
    if text::contains_text(result, secret) {
        let before = redacted(secrets.drop_last(), text);
        text::replacing_adds_nothing(before, secrets.last(), REDACTION_PLACEHOLDER@, secret);
        let at = choose|i: int| 0 <= i < secrets.len() && secrets[i] == secret;
        assert(at < secrets.len() - 1);
        assert(secrets.drop_last()[at] == secret);
        redacted_text_holds_no_secret(secrets.drop_last(), text, secret);
    }
}

/// A registered secret never survives a sweep: nothing in a value that could be
/// swept holds it afterwards, unless the secret is one that can overlap the
/// placeholder itself.
pub proof fn a_swept_value_holds_no_secret(
    secrets: Seq<Seq<char>>,
    tree: Tree,
    secret: Seq<char>,
)
    requires
        secrets.contains(secret),
        secret.len() > 0,
        text::is_clear_of(secret, REDACTION_PLACEHOLDER@),
        names_kept(secrets, tree),
    ensures
        !holds(swept(secrets, tree), secret),
    decreases tree,
{
    match tree {
        Tree::Text(text) => {
            redacted_text_holds_no_secret(secrets, text, secret);
        },
        Tree::Name(name) => {
            redacted_text_holds_no_secret(secrets, name, secret);
        },
        Tree::List(parts) => {
            let after = swept(secrets, tree).parts();
            assert forall|i: int| 0 <= i < after.len() implies !holds(#[trigger] after[i], secret) by {
                assert(after[i] == swept(secrets, parts[i]));
                a_swept_value_holds_no_secret(secrets, parts[i], secret);
            }
        },
        _ => {},
    }
}

/// With no secret registered, nothing is refused and nothing changes.
pub proof fn nothing_registered_changes_nothing(tree: Tree)
    ensures
        names_kept(Seq::empty(), tree),
        swept(Seq::empty(), tree) == tree,
    decreases tree,
{
    match tree {
        Tree::List(parts) => {
            assert forall|i: int| 0 <= i < parts.len() implies names_kept(
                Seq::empty(),
                #[trigger] parts[i],
            ) && swept(Seq::empty(), parts[i]) == parts[i] by {
                nothing_registered_changes_nothing(parts[i]);
            }
            assert(swept(Seq::empty(), tree).parts() =~= parts);
        },
        _ => {},
    }
}

/// Replaces known secrets wherever they appear in free text.
///
/// USB serial numbers are the only secrets this product handles, and they are
/// redacted by default rather than on request.
#[derive(Debug)]
pub struct Redactor {
    secrets: Vec<String>,
}

impl View for Redactor {
    type V = Seq<Seq<char>>;

    closed spec fn view(&self) -> Seq<Seq<char>> {
        self.secrets@.map_values(|secret: String| secret@)
    }
}

impl Clone for Redactor {
    fn clone(&self) -> (redactor: Self)
        ensures
            redactor@ == self@,
    {
        let secrets: Vec<String> = self.secrets.clone();
        assert(secrets@ =~= self.secrets@);
        Self { secrets }
    }
}

impl Default for Redactor {
    fn default() -> (redactor: Self)
        ensures
            redactor@ == Seq::<Seq<char>>::empty(),
    {
        Self::new()
    }
}

impl Redactor {
    pub fn new() -> (redactor: Self)
        ensures
            redactor@ == Seq::<Seq<char>>::empty(),
    {
        let redactor = Self { secrets: Vec::new() };
        assert(redactor@ =~= Seq::<Seq<char>>::empty());
        redactor
    }

    /// Register a value that must never appear in an export.
    ///
    /// Very short values and values registered before are ignored.
    pub fn add_secret(&mut self, secret: &str)
        ensures
            final(self)@ == if text::byte_len(secret@) >= MIN_SECRET_BYTES && !old(self)@.contains(
                secret@,
            ) {
                old(self)@.push(secret@)
            } else {
                old(self)@
            },
    {
        if text::byte_count(secret) < MIN_SECRET_BYTES {
            return;
        }
        let ghost before = self@;
        let mut index: usize = 0;
        while index < self.secrets.len()
            invariant
                index <= self.secrets@.len(),
                self@ == before,
                before.len() == self.secrets@.len(),
                forall|i: int| 0 <= i < index ==> before[i] != secret@,
            decreases self.secrets@.len() - index,
        {
            assert(self.secrets@[index as int]@ == before[index as int]);
            if text::same(self.secrets[index].as_str(), secret) {
                return;
            }
            index = index + 1;
        }
        assert(!before.contains(secret@));
        self.secrets.push(secret.to_owned());
        assert(self@ =~= before.push(secret@));
    }

    pub fn redact(&self, text: &str) -> (result: String)
        ensures
            result@ == redacted(self@, text@),
            (forall|i: int|
                0 <= i < self@.len() ==> !text::contains_text(text@, #[trigger] self@[i]))
                ==> result@ == text@,
    {
        proof {
            if forall|i: int|
                0 <= i < self@.len() ==> !text::contains_text(text@, #[trigger] self@[i]) {
                a_text_without_secrets_is_left_alone(self@, text@);
            }
        }
        let mut result: String = text.to_owned();
        let mut index: usize = 0;
        assert(self@.take(0) =~= Seq::empty());
        while index < self.secrets.len()
            invariant
                index <= self.secrets@.len(),
                self@.len() == self.secrets@.len(),
                result@ == redacted(self@.take(index as int), text@),
            decreases self.secrets@.len() - index,
        {
            assert(self@.take(index + 1).drop_last() =~= self@.take(index as int));
            assert(self@.take(index + 1).last() == self.secrets@[index as int]@);
            result = text::replace(
                result.as_str(),
                self.secrets[index].as_str(),
                REDACTION_PLACEHOLDER,
            );
            index = index + 1;
        }
        assert(self@.take(index as int) =~= self@);
        result
    }

    /// Whether no secret reaches into a fixed name.
    pub fn keeps(&self, name: &str) -> (kept: bool)
        ensures
            kept == names_kept(self@, Tree::Name(name@)),
    {
        text::same(self.redact(name).as_str(), name)
    }

    /// A copy of `value` with every registered secret replaced.
    ///
    /// `None` when a secret reaches into a name the value is written under. A
    /// caller must treat that as a refusal rather than fall back to the value.
    pub fn redacted<T: Sweep>(&self, value: &T) -> (result: Option<T>)
        ensures
            result is Some <==> names_kept(self@, value.tree()),
            result matches Some(result) ==> result.tree() == swept(self@, value.tree()),
    {
        value.sweep(self)
    }
}

/// A value whose texts a redactor can sweep.
pub trait Sweep: Sized {
    /// What the value is written as.
    spec fn tree(&self) -> Tree;

    /// The value with every registered secret replaced, or nothing when a
    /// secret reaches into a name it is written under.
    fn sweep(&self, redactor: &Redactor) -> (result: Option<Self>)
        ensures
            result is Some <==> names_kept(redactor@, self.tree()),
            result matches Some(result) ==> result.tree() == swept(redactor@, self.tree()),
    ;
}

impl Sweep for String {
    open spec fn tree(&self) -> Tree {
        Tree::Text(self@)
    }

    fn sweep(&self, redactor: &Redactor) -> (result: Option<Self>)
        ensures
            result matches Some(kept) && kept@ == redacted(redactor@, self@),
    {
        Some(redactor.redact(self.as_str()))
    }
}

impl Sweep for u16 {
    open spec fn tree(&self) -> Tree {
        Tree::Number(*self as int)
    }

    fn sweep(&self, redactor: &Redactor) -> (result: Option<Self>)
        ensures
            result == Some(*self),
    {
        Some(*self)
    }
}

impl<T: Sweep> Sweep for Option<T> {
    open spec fn tree(&self) -> Tree {
        match self {
            Some(value) => value.tree(),
            None => Tree::Null,
        }
    }

    fn sweep(&self, redactor: &Redactor) -> (result: Option<Self>)
        ensures
            result matches Some(kept) ==> match (*self, kept) {
                (Some(value), Some(kept_value)) => kept_value.tree() == swept(
                    redactor@,
                    value.tree(),
                ),
                (None, None) => true,
                _ => false,
            },
    {
        match self {
            Some(value) => match value.sweep(redactor) {
                Some(value) => Some(Some(value)),
                None => None,
            },
            None => Some(None),
        }
    }
}

impl<T: Sweep> Sweep for Vec<T> {
    open spec fn tree(&self) -> Tree {
        Tree::List(self@.map_values(|item: T| item.tree()))
    }

    fn sweep(&self, redactor: &Redactor) -> (result: Option<Self>)
        ensures
            result matches Some(kept) ==> {
                &&& kept@.len() == self@.len()
                &&& forall|i: int|
                    0 <= i < self@.len() ==> (#[trigger] kept@[i]).tree() == swept(
                        redactor@,
                        self@[i].tree(),
                    )
            },
    {
        let ghost before = self@.map_values(|item: T| item.tree());
        let mut items: Vec<T> = Vec::new();
        let mut index: usize = 0;
        while index < self.len()
            invariant
                index <= self@.len(),
                before == self@.map_values(|item: T| item.tree()),
                items@.len() == index,
                forall|i: int| 0 <= i < index ==> names_kept(redactor@, #[trigger] before[i]),
                forall|i: int|
                    0 <= i < index ==> (#[trigger] items@[i]).tree() == swept(redactor@, before[i]),
            decreases self@.len() - index,
        {
            assert(before[index as int] == self@[index as int].tree());
            match self[index].sweep(redactor) {
                Some(item) => items.push(item),
                None => {
                    return None;
                },
            }
            index = index + 1;
        }
        proof {
            let after = items@.map_values(|item: T| item.tree());
            assert forall|i: int| 0 <= i < before.len() implies #[trigger] after[i] == swept(
                redactor@,
                before[i],
            ) by {
                assert(after[i] == items@[i].tree());
            }
            lemma_swept_list(redactor@, before, after);
        }
        Some(items)
    }
}

/// Secrets are taken out in the order they were registered: the first one from
/// the text itself, the others from what is left.
pub proof fn the_first_secret_is_taken_out_first(
    first: Seq<char>,
    others: Seq<Seq<char>>,
    text: Seq<char>,
)
    ensures
        redacted(seq![first] + others, text) == redacted(
            others,
            text::replaced(text, first, "[redacted]"@),
        ),
        redacted(Seq::empty(), text) == text,
    decreases others.len(),
{
    let all = seq![first] + others;
    if others.len() == 0 {
        assert(all.drop_last() =~= Seq::<Seq<char>>::empty());
        assert(all.last() == first);
        assert(redacted(all.drop_last(), text) == text);
    } else {
        the_first_secret_is_taken_out_first(first, others.drop_last(), text);
        assert(all.drop_last() =~= seq![first] + others.drop_last());
        assert(all.last() == others.last());
    }
}

} // verus!
