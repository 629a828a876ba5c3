use vstd::prelude::*;
use vstd::string::StringSliceAdditionalSpecFns;
use vstd::utf8::{encode_utf8, is_char_boundary};

verus! {

/// Variables for substitution in the path.
#[derive(Debug)]
pub struct TemplateVariables<'a> {
    pub class: &'a str,
    /// The time of the dump by formats of the template, in order. A time that
    /// cannot be formatted is empty.
    pub times: &'a Vec<String>,
}

/// Template for the dump path.
#[derive(Debug)]
pub struct DumpPath {
    template: String,
    /// Components of the template, contains instructions on
    /// how to render.
    components: Vec<Component>,
}

#[derive(Debug)]
pub struct Component {
    /// How much this component occupies space in template, in bytes. Each
    /// component contains not the entire span like `(Offset, Size)`, but
    /// only size, since components are arranged according to occurence in
    /// template string, thus offset of each component can be calculated
    /// during rendering, for free, since components are rendered
    /// sequentially in any case.
    pub size: usize,
    pub data: ComponentData,
}

#[derive(Debug, PartialEq, Eq)]
pub enum ComponentData {
    /// Simple path, no templating.
    Path,
    /// Template variable.
    Variable(Variable),
}

#[derive(Debug, PartialEq, Eq)]
pub enum Variable {
    /// Dump class.
    Class,
    /// Time of the dump.
    Time {
        /// strftime string format.
        format: String,
    },
}

/// A template cannot be used: the format isn't accepted by strftime.
#[derive(Debug, PartialEq, Eq)]
pub struct InvalidFormat {
    pub format: String,
}

// === Model ===

/// A part of a template.
pub enum Piece {
    /// Text that is rendered as is.
    Path(Seq<char>),
    /// The class, `{class}` in the template.
    Class,
    /// The time in the format, `{time:<format>}` in the template.
    Time(Seq<char>),
}

impl Piece {
    /// How the part is written in the template.
    pub open spec fn text(self) -> Seq<char> {
        match self {
            Piece::Path(text) => text,
            Piece::Class => braced("class"@),
            Piece::Time(format) => braced("time:"@ + format),
        }
    }
}

/// The text in braces.
pub open spec fn braced(raw: Seq<char>) -> Seq<char> {
    seq!['{'] + raw + seq!['}']
}

/// The position of the first occurrence, the length if there are no ones.
pub open spec fn position(s: Seq<char>, c: char) -> int
    decreases s.len(),
{
    if s.len() == 0 || s[0] == c {
        0
    } else {
        1 + position(s.skip(1), c)
    }
}

/// What the text in braces means, `None` if it's not a variable.
pub open spec fn variable(raw: Seq<char>) -> Option<Piece> {
    if raw == "class"@ {
        Some(Piece::Class)
    } else if "time:"@.is_prefix_of(raw) {
        Some(Piece::Time(raw.skip("time:"@.len() as int)))
    } else {
        None
    }
}

/// Text without variables, nothing if it's empty.
pub open spec fn plain_piece(text: Seq<char>) -> Seq<Piece> {
    if text.len() == 0 {
        Seq::empty()
    } else {
        seq![Piece::Path(text)]
    }
}

/// Parts of `plain + s`, where there are no variables in `plain`.
pub open spec fn pieces(plain: Seq<char>, s: Seq<char>) -> Seq<Piece>
    decreases s.len(),
    via pieces_decreases
{
    let open = position(s, '{');
    if open == s.len() {
        plain_piece(plain + s)
    } else {
        let rest = s.skip(open + 1);
        let len = position(rest, '}');
        if len == rest.len() {
            pieces(plain + s.take(open + 1), rest)
        } else {
            let after = rest.skip(len + 1);
            match variable(rest.take(len)) {
                Some(piece) => plain_piece(plain + s.take(open)) + seq![piece] + pieces(
                    Seq::empty(),
                    after,
                ),
                None => pieces(plain + s.take(open + 1) + rest.take(len + 1), after),
            }
        }
    }
}

#[via_fn]
proof fn pieces_decreases(plain: Seq<char>, s: Seq<char>) {
    lemma_position(s, '{');
    let open = position(s, '{');
    if open != s.len() {
        lemma_position(s.skip(open + 1), '}');
    }
}

/// Texts of all parts together.
pub open spec fn text_of(pieces: Seq<Piece>) -> Seq<char>
    decreases pieces.len(),
{
    if pieces.len() == 0 {
        Seq::empty()
    } else {
        text_of(pieces.drop_last()) + pieces.last().text()
    }
}

/// Formats of all times, from the first to the last.
pub open spec fn formats_of(pieces: Seq<Piece>) -> Seq<Seq<char>>
    decreases pieces.len(),
{
    if pieces.len() == 0 {
        Seq::empty()
    } else {
        match pieces.last() {
            Piece::Time(format) => formats_of(pieces.drop_last()).push(format),
            _ => formats_of(pieces.drop_last()),
        }
    }
}

/// The path: variables are replaced with their values.
pub open spec fn rendered(pieces: Seq<Piece>, class: Seq<char>, times: Seq<String>) -> Seq<char>
    decreases pieces.len(),
{
    if pieces.len() == 0 {
        Seq::empty()
    } else {
        let before = rendered(pieces.drop_last(), class, times);
        match pieces.last() {
            Piece::Path(text) => before + text,
            Piece::Class => before + class,
            Piece::Time(_) => before + times[formats_of(pieces.drop_last()).len() as int]@,
        }
    }
}

/// How many bytes the text takes.
pub open spec fn byte_len(text: Seq<char>) -> nat {
    encode_utf8(text).len()
}

impl Component {
    /// Whether it's the instruction for the part.
    pub open spec fn renders(&self, piece: Piece) -> bool {
        &&& self.size == byte_len(piece.text())
        &&& match piece {
            Piece::Path(_) => self.data is Path,
            Piece::Class => self.data == ComponentData::Variable(Variable::Class),
            Piece::Time(format) => self.data matches ComponentData::Variable(
                Variable::Time { format: stored },
            ) && stored@ == format,
        }
    }
}

pub open spec fn all_render(components: Seq<Component>, pieces: Seq<Piece>) -> bool {
    &&& components.len() == pieces.len()
    &&& forall|i: int| 0 <= i < pieces.len() ==> (#[trigger] components[i]).renders(pieces[i])
}

// === Lemmas ===

proof fn lemma_position(s: Seq<char>, c: char)
    ensures
        0 <= position(s, c) <= s.len(),
        position(s, c) < s.len() ==> s[position(s, c)] == c,
        forall|i: int| 0 <= i < position(s, c) ==> s[i] != c,
    decreases s.len(),
{
    if s.len() > 0 && s[0] != c {
        lemma_position(s.skip(1), c);
        assert forall|i: int| 0 <= i < position(s, c) implies s[i] != c by {
            if i > 0 {
                assert(s[i] == s.skip(1)[i - 1]);
            }
        }
    }
}

proof fn lemma_position_is(s: Seq<char>, c: char, at: int)
    requires
        0 <= at <= s.len(),
        at < s.len() ==> s[at] == c,
        forall|i: int| 0 <= i < at ==> s[i] != c,
    ensures
        position(s, c) == at,
{
    lemma_position(s, c);
    let p = position(s, c);
    if p < at {
        assert(s[p] == c);
    }
    if at < p {
        assert(s[at] != c);
    }
}

proof fn lemma_text_append(a: Seq<Piece>, b: Seq<Piece>)
    ensures
        text_of(a + b) == text_of(a) + text_of(b),
    decreases b.len(),
{
    if b.len() == 0 {
        assert(a + b =~= a);
        assert(text_of(a) + text_of(b) =~= text_of(a));
    } else {
        lemma_text_append(a, b.drop_last());
        assert((a + b).drop_last() =~= a + b.drop_last());
        assert((a + b).last() == b.last());
        assert(text_of(a + b) =~= text_of(a) + text_of(b));
    }
}

proof fn lemma_encode_append(a: Seq<char>, b: Seq<char>)
    ensures
        encode_utf8(a + b) == encode_utf8(a) + encode_utf8(b),
    decreases a.len(),
{
    if a.len() == 0 {
        assert(a + b =~= b);
        assert(encode_utf8(a) + encode_utf8(b) =~= encode_utf8(b));
    } else {
        lemma_encode_append(a.drop_first(), b);
        assert((a + b).drop_first() =~= a.drop_first() + b);
        assert(encode_utf8(a + b) =~= encode_utf8(a) + encode_utf8(b));
    }
}

proof fn lemma_boundary(a: Seq<char>, b: Seq<char>)
    ensures
        is_char_boundary(encode_utf8(a + b), encode_utf8(a).len() as int),
        encode_utf8(a).len() <= encode_utf8(a + b).len(),
    decreases a.len(),
{
    let bytes = encode_utf8(a + b);
    vstd::utf8::encode_utf8_valid_utf8(a + b);
    lemma_encode_append(a, b);
    if a.len() > 0 {
        lemma_boundary(a.drop_first(), b);
        vstd::utf8::encode_utf8_first_scalar(a + b);
        assert((a + b).drop_first() =~= a.drop_first() + b);
        assert(vstd::utf8::pop_first_scalar(bytes) =~= encode_utf8((a + b).drop_first()));
    }
}

proof fn lemma_decode(a: Seq<char>, s: &str)
    requires
        s.spec_bytes() == encode_utf8(a),
    ensures
        s@ == a,
{
    vstd::utf8::encode_utf8_decode_utf8(a);
    vstd::utf8::encode_utf8_decode_utf8(s@);
}

// === Laws ===

/// Parts of a template make up the template.
pub proof fn pieces_make_up_template(plain: Seq<char>, s: Seq<char>)
    ensures
        text_of(pieces(plain, s)) == plain + s,
    decreases s.len(),
{
    lemma_position(s, '{');
    let open = position(s, '{');
    reveal_with_fuel(text_of, 2);
    if open == s.len() {
        lemma_plain_text(plain + s);
    } else {
        let rest = s.skip(open + 1);
        lemma_position(rest, '}');
        let len = position(rest, '}');
        assert(s.take(open + 1) + rest =~= s);
        assert(s.take(open + 1) =~= s.take(open) + seq!['{']);
        if len == rest.len() {
            pieces_make_up_template(plain + s.take(open + 1), rest);
            assert(plain + s.take(open + 1) + rest =~= plain + s);
        } else {
            let after = rest.skip(len + 1);
            let raw = rest.take(len);
            assert(rest.take(len + 1) =~= raw + seq!['}']);
            assert(rest =~= raw + seq!['}'] + after);
            match variable(raw) {
                Some(piece) => {
                    pieces_make_up_template(Seq::empty(), after);
                    let head = plain_piece(plain + s.take(open));
                    lemma_plain_text(plain + s.take(open));
                    lemma_variable_text(raw);
                    assert(text_of(seq![piece]) =~= piece.text()) by {
                        assert(seq![piece].drop_last() =~= Seq::empty());
                    }
                    lemma_text_append(head, seq![piece]);
                    lemma_text_append(head + seq![piece], pieces(Seq::empty(), after));
                    assert(plain + s =~= plain + s.take(open) + braced(raw) + (Seq::empty()
                        + after));
                },
                None => {
                    pieces_make_up_template(plain + s.take(open + 1) + rest.take(len + 1), after);
                    assert(plain + s.take(open + 1) + rest.take(len + 1) + after =~= plain + s);
                },
            }
        }
    }
}

proof fn lemma_plain_text(text: Seq<char>)
    ensures
        text_of(plain_piece(text)) == text,
{
    if text.len() > 0 {
        let list = seq![Piece::Path(text)];
        assert(list.drop_last() =~= Seq::empty());
        assert(text_of(list.drop_last()) =~= Seq::empty());
        assert(text_of(list) =~= text);
    } else {
        assert(text_of(plain_piece(text)) =~= text);
    }
}

proof fn lemma_variable_text(raw: Seq<char>)
    ensures
        variable(raw) matches Some(piece) ==> piece.text() == braced(raw),
{
    if raw != "class"@ && "time:"@.is_prefix_of(raw) {
        let n = "time:"@.len() as int;
        assert("time:"@ + raw.skip(n) =~= raw);
    }
}

// === Parsing and rendering ===

fn to_chars(s: &str) -> (chars: Vec<char>)
    ensures
        chars@ == s@,
{
    let mut chars: Vec<char> = Vec::new();
    for c in iter: s.chars()
        invariant
            iter.seq() == s@,
            chars@ == s@.take(iter.index()),
    {
        chars.push(c);
        assert(s@.take(chars.len() as int) =~= s@.take(chars.len() - 1).push(c));
    }
    assert(s@.take(s@.len() as int) =~= s@);
    chars
}

/// Finds the first occurrence at or after `from`, the length if there are no
/// ones.
fn find(chars: &Vec<char>, c: char, from: usize) -> (at: usize)
    requires
        from <= chars.len(),
    ensures
        from <= at <= chars.len(),
        at - from == position(chars@.skip(from as int), c),
{
    let mut at: usize = from;
    while at < chars.len() && chars[at] != c
        invariant
            from <= at <= chars.len(),
            forall|i: int| from <= i < at ==> chars[i] != c,
        decreases chars.len() - at,
    {
        at += 1;
    }
    proof {
        let s = chars@.skip(from as int);
        assert forall|i: int| 0 <= i < at - from implies s[i] != c by {
            assert(s[i] == chars[from + i]);
        }
        lemma_position_is(s, c, at - from);
    }
    at
}

/// Recognizes a variable.
fn parse_variable(raw: &str) -> (res: Option<Variable>)
    ensures
        match variable(raw@) {
            Some(Piece::Class) => res == Some(Variable::Class),
            Some(Piece::Time(format)) => res matches Some(Variable::Time { format: stored })
                && stored@ == format,
            _ => res is None,
        },
{
    proof {
        reveal_strlit("time:");
    }
    if raw.to_owned() == "class".to_owned() {
        return Some(Variable::Class);
    }

    let len: usize = raw.unicode_len();
    if len >= 5 && raw.substring_char(0, 5).to_owned() == "time:".to_owned() {
        assert(raw@.subrange(0, 5) =~= raw@.take(5));
        assert(raw@.subrange(5, len as int) =~= raw@.skip(5));
        return Some(Variable::Time { format: raw.substring_char(5, len).to_owned() });
    }
    assert("time:"@.is_prefix_of(raw@) ==> raw@.subrange(0, 5) =~= "time:"@);
    None
}

/// How many bytes the part of the template takes.
fn size_of(template: &str, from: usize, to: usize) -> (size: usize)
    requires
        from <= to <= template@.len(),
    ensures
        size == byte_len(template@.subrange(from as int, to as int)),
{
    let part: &str = template.substring_char(from, to);
    part.as_bytes().len()
}

fn push_path(template: &str, from: usize, to: usize, components: &mut Vec<Component>)
    requires
        from <= to <= template@.len(),
    ensures
        exists|added: Seq<Component>|
            {
                &&& final(components)@ == #[trigger] (old(components)@ + added)
                &&& all_render(added, plain_piece(template@.subrange(from as int, to as int)))
            },
{
    let ghost text = template@.subrange(from as int, to as int);
    if from < to {
        let component = Component { size: size_of(template, from, to), data: ComponentData::Path };
        components.push(component);
        proof {
            let added = seq![component];
            assert(components@ =~= old(components)@ + added);
            assert(component.renders(Piece::Path(text)));
            assert(all_render(added, plain_piece(text)));
        }
    } else {
        proof {
            let added = Seq::<Component>::empty();
            assert(components@ =~= old(components)@ + added);
            assert(all_render(added, plain_piece(text)));
        }
    }
}

proof fn lemma_all_render_append(
    a: Seq<Component>,
    b: Seq<Component>,
    x: Seq<Piece>,
    y: Seq<Piece>,
)
    requires
        all_render(a, x),
        all_render(b, y),
    ensures
        all_render(a + b, x + y),
{
    assert forall|i: int| 0 <= i < (x + y).len() implies (#[trigger] (a + b)[i]).renders(
        (x + y)[i],
    ) by {
        if i < x.len() {
            assert(a[i].renders(x[i]));
        } else {
            assert(b[i - x.len()].renders(y[i - x.len()]));
        }
    }
}

/// Splits a template into components.
#[verifier::rlimit(50)]
fn parse_components(template: &str) -> (components: Vec<Component>)
    ensures
        all_render(components@, pieces(Seq::empty(), template@)),
{
    let chars = to_chars(template);
    let ghost s = template@;
    let mut components: Vec<Component> = Vec::new();
    // Where the text without variables starts.
    let mut plain: usize = 0;
    // Where unparsed text starts.
    let mut chunk: usize = 0;
    let ghost mut done = Seq::<Piece>::empty();
    assert(s.subrange(0, 0) =~= Seq::empty());
    assert(s.skip(0) =~= s);
    assert(done + pieces(Seq::empty(), s) =~= pieces(Seq::empty(), s));
    loop
        invariant_except_break
            chars@ == s,
            s == template@,
            plain <= chunk <= chars.len(),
            all_render(components@, done),
            pieces(Seq::empty(), s) == done + pieces(
                s.subrange(plain as int, chunk as int),
                s.skip(chunk as int),
            ),
        ensures
            all_render(components@, pieces(Seq::empty(), s)),
        decreases chars.len() - chunk,
    {
        let ghost text = s.subrange(plain as int, chunk as int);
        let ghost unparsed = s.skip(chunk as int);
        let ghost before = components@;

        // original = "xxx {yyy} zzz"
        //                 ^ open
        let open: usize = find(&chars, '{', chunk);
        proof {
            lemma_position(unparsed, '{');
        }
        if open == chars.len() {
            // no more template variables.
            push_path(template, plain, open, &mut components);
            proof {
                let added = choose|added: Seq<Component>|
                    {
                        &&& components@ == #[trigger] (before + added)
                        &&& all_render(
                            added,
                            plain_piece(s.subrange(plain as int, open as int)),
                        )
                    };
                assert(text + unparsed =~= s.subrange(plain as int, open as int));
                lemma_all_render_append(before, added, done, plain_piece(text + unparsed));
            }
            break ;
        }
        // original = "xxx {yyy} zzz"
        //                     ^ close
        let close: usize = find(&chars, '}', open + 1);
        let ghost rest = unparsed.skip(open - chunk + 1);
        proof {
            assert(rest =~= s.skip(open + 1));
            lemma_position(rest, '}');
            assert(unparsed.take(open - chunk) =~= s.subrange(chunk as int, open as int));
            assert(unparsed.take(open - chunk + 1) =~= s.subrange(chunk as int, open + 1));
        }
        if close == chars.len() {
            proof {
                assert(text + unparsed.take(open - chunk + 1) =~= s.subrange(
                    plain as int,
                    open + 1,
                ));
            }
            chunk = open + 1;
            continue ;
        }
        let raw: &str = template.substring_char(open + 1, close);
        proof {
            assert(raw@ =~= rest.take(close - open - 1));
            assert(rest.skip(close - open) =~= s.skip(close + 1));
            assert(rest.take(close - open) =~= s.subrange(open + 1, close + 1));
            assert(text + unparsed.take(open - chunk) =~= s.subrange(plain as int, open as int));
            assert(text + unparsed.take(open - chunk + 1) + rest.take(close - open)
                =~= s.subrange(plain as int, close + 1));
        }
        match parse_variable(raw) {
            None => {},
            Some(variable) => {
                push_path(template, plain, open, &mut components);
                let ghost with_path = components@;
                let component = Component {
                    size: size_of(template, open, close + 1),
                    data: ComponentData::Variable(variable),
                };
                components.push(component);
                plain = close + 1;
                proof {
                    let plain_pieces = plain_piece(text + unparsed.take(open - chunk));
                    let piece = self::variable(raw@)->0;
                    let added = choose|added: Seq<Component>|
                        {
                            &&& with_path == #[trigger] (before + added)
                            &&& all_render(added, plain_pieces)
                        };
                    lemma_all_render_append(before, added, done, plain_pieces);
                    lemma_position(unparsed, '{');
                    lemma_variable_text(raw@);
                    assert(s[open as int] == unparsed[open - chunk]);
                    assert(s[close as int] == rest[close - open - 1]);
                    assert(s.subrange(open as int, close + 1) =~= braced(raw@));
                    assert(component.renders(piece));
                    assert(all_render(seq![component], seq![piece]));
                    lemma_all_render_append(
                        with_path,
                        seq![component],
                        done + plain_pieces,
                        seq![piece],
                    );
                    assert(components@ =~= with_path + seq![component]);
                    let tail = pieces(Seq::empty(), s.skip(close + 1));
                    assert(done + (plain_pieces + seq![piece] + tail) =~= done + plain_pieces
                        + seq![piece] + tail);
                    done = done + plain_pieces + seq![piece];
                    assert(s.subrange(close + 1, close + 1) =~= Seq::empty());
                }
            },
        }
        chunk = close + 1;
    }
    components
}

impl DumpPath {
    /// The template.
    pub closed spec fn spec_template(&self) -> Seq<char> {
        self.template@
    }

    /// Parts of the template.
    pub open spec fn pieces(&self) -> Seq<Piece> {
        pieces(Seq::empty(), self.spec_template())
    }

    #[verifier::type_invariant]
    closed spec fn inv(&self) -> bool {
        all_render(self.components@, pieces(Seq::empty(), self.template@))
    }

    /// Formats of times in the template, they must be checked before parsing.
    pub fn time_formats(template: &str) -> (formats: Vec<String>)
        ensures
            formats.len() == formats_of(pieces(Seq::empty(), template@)).len(),
            forall|i: int|
                0 <= i < formats.len() ==> (#[trigger] formats[i])@ == formats_of(
                    pieces(Seq::empty(), template@),
                )[i],
    {
        let components = parse_components(template);
        formats_in(&components, Ghost(pieces(Seq::empty(), template@)))
    }

    /// Parse template. `is_valid[i]` is whether the i-th format of
    /// [`DumpPath::time_formats`] is accepted by strftime.
    pub fn parse(template: String, is_valid: &Vec<bool>) -> (res: Result<DumpPath, InvalidFormat>)
        requires
            is_valid.len() == formats_of(pieces(Seq::empty(), template@)).len(),
        ensures
            match res {
                Ok(path) => {
                    &&& path.spec_template() == template@
                    &&& forall|i: int| 0 <= i < is_valid.len() ==> #[trigger] is_valid[i]
                },
                Err(err) => exists|i: int|
                    {
                        &&& 0 <= i < is_valid.len()
                        &&& !(#[trigger] is_valid[i])
                        &&& forall|j: int| 0 <= j < i ==> #[trigger] is_valid[j]
                        &&& err.format@ == formats_of(pieces(Seq::empty(), template@))[i]
                    },
            },
            res is Ok <==> !is_valid@.contains(false),
    {
        let components = parse_components(template.as_str());
        let ghost list = pieces(Seq::empty(), template@);
        let formats = formats_in(&components, Ghost(list));
        let mut i: usize = 0;
        while i < is_valid.len()
            invariant
                i <= is_valid.len() == formats.len() == formats_of(list).len(),
                list == pieces(Seq::empty(), template@),
                forall|j: int| 0 <= j < i ==> #[trigger] is_valid[j],
                forall|k: int|
                    0 <= k < formats.len() ==> (#[trigger] formats[k])@ == formats_of(list)[k],
            decreases is_valid.len() - i,
        {
            if !is_valid[i] {
                assert(formats[i as int]@ == formats_of(list)[i as int]);
                assert(is_valid@.contains(is_valid@[i as int]));
                return Err(InvalidFormat { format: formats[i].clone() });
            }
            i += 1;
        }
        Ok(DumpPath { template, components })
    }

    /// The template as it's written.
    pub fn to_string(&self) -> (res: String)
        ensures
            res@ == self.spec_template(),
    {
        self.template.clone()
    }

    /// Instructions on how to render.
    pub fn components(&self) -> (components: &Vec<Component>)
        ensures
            all_render(components@, self.pieces()),
    {
        proof {
            use_type_invariant(self);
        }
        &self.components
    }

    /// Appends the path with substituted variables.
    pub fn render_into(&self, variables: &TemplateVariables<'_>, to: &mut String)
        requires
            variables.times.len() == formats_of(self.pieces()).len(),
        ensures
            final(to)@ == old(to)@ + rendered(
                self.pieces(),
                variables.class@,
                variables.times@,
            ),
    {
        proof {
            use_type_invariant(self);
            pieces_make_up_template(Seq::empty(), self.template@);
        }
        let ghost all = self.pieces();
        let ghost start = to@;
        let mut rest: &str = self.template.as_str();
        let mut time: usize = 0;
        let mut i: usize = 0;
        proof {
            assert(all.take(0).len() == 0);
            assert(text_of(all.take(0)) + rest@ =~= self.template@);
            assert(all.take(0) =~= Seq::<Piece>::empty());
            assert(to@ =~= start + rendered(all.take(0), variables.class@, variables.times@));
        }
        while i < self.components.len()
            invariant
                i <= self.components.len(),
                all_render(self.components@, all),
                variables.times.len() == formats_of(all).len(),
                text_of(all) == self.template@,
                text_of(all.take(i as int)) + rest@ == self.template@,
                time == formats_of(all.take(i as int)).len(),
                to@ == start + rendered(all.take(i as int), variables.class@, variables.times@),
            decreases self.components.len() - i,
        {
            let component = &self.components[i];
            let ghost piece = all[i as int];
            let ghost next = all.take(i + 1);
            proof {
                assert(component.renders(piece));
                assert(next.drop_last() =~= all.take(i as int));
                assert(next.last() == piece);
                lemma_prefix_text(all, i + 1);
                lemma_prefix_formats(all, i + 1);
                let tail = text_of(all.skip(i + 1));
                assert(rest@ =~= piece.text() + tail) by {
                    assert(text_of(all.take(i as int)) + piece.text() + tail
                        == text_of(all.take(i as int)) + rest@);
                    let prefix = text_of(all.take(i as int));
                    assert((prefix + piece.text() + tail).skip(prefix.len() as int)
                        =~= piece.text() + tail);
                    assert((prefix + rest@).skip(prefix.len() as int) =~= rest@);
                }
                lemma_boundary(piece.text(), tail);
                lemma_encode_append(piece.text(), tail);
            }
            let (text, after) = rest.split_at(component.size);
            proof {
                let tail = text_of(all.skip(i + 1));
                assert(text.spec_bytes() =~= encode_utf8(piece.text()));
                assert(after.spec_bytes() =~= encode_utf8(tail));
                lemma_decode(piece.text(), text);
                lemma_decode(tail, after);
                assert(text_of(all.take(i as int)) + (piece.text() + tail) =~= text_of(next)
                    + tail);
            }
            match &component.data {
                ComponentData::Variable(Variable::Class) => to.append(variables.class),
                ComponentData::Variable(Variable::Time { .. }) => {
                    to.append(variables.times[time].as_str());
                    time += 1;
                },
                ComponentData::Path => to.append(text),
            }
            rest = after;
            i += 1;
            assert(to@ =~= start + rendered(next, variables.class@, variables.times@));
        }
        assert(all.take(i as int) =~= all);
    }
}

proof fn lemma_prefix_text(all: Seq<Piece>, i: int)
    requires
        0 <= i <= all.len(),
    ensures
        text_of(all) == text_of(all.take(i)) + text_of(all.skip(i)),
{
    lemma_text_append(all.take(i), all.skip(i));
    assert(all.take(i) + all.skip(i) =~= all);
}

proof fn lemma_prefix_formats(all: Seq<Piece>, i: int)
    requires
        0 <= i <= all.len(),
    ensures
        formats_of(all.take(i)).len() <= formats_of(all).len(),
        formats_of(all.take(i)) == formats_of(all).take(formats_of(all.take(i)).len() as int),
    decreases all.len(),
{
    if i == all.len() {
        assert(all.take(i) =~= all);
    } else {
        lemma_prefix_formats(all.drop_last(), i);
        assert(all.drop_last().take(i) =~= all.take(i));
        let n = formats_of(all.take(i)).len() as int;
        assert(formats_of(all).take(n) =~= formats_of(all.drop_last()).take(n));
    }
}

/// Formats of all times.
fn formats_in(components: &Vec<Component>, list: Ghost<Seq<Piece>>) -> (formats: Vec<String>)
    requires
        all_render(components@, list@),
    ensures
        formats.len() == formats_of(list@).len(),
        forall|i: int| 0 <= i < formats.len() ==> (#[trigger] formats[i])@ == formats_of(list@)[i],
{
    let mut formats: Vec<String> = Vec::new();
    let mut i: usize = 0;
    assert(list@.take(0).len() == 0);
    while i < components.len()
        invariant
            i <= components.len(),
            all_render(components@, list@),
            formats.len() == formats_of(list@.take(i as int)).len(),
            forall|k: int|
                0 <= k < formats.len() ==> (#[trigger] formats[k])@ == formats_of(
                    list@.take(i as int),
                )[k],
        decreases components.len() - i,
    {
        let ghost next = list@.take(i + 1);
        proof {
            assert(components[i as int].renders(list@[i as int]));
            assert(next.drop_last() =~= list@.take(i as int));
            assert(next.last() == list@[i as int]);
        }
        if let ComponentData::Variable(Variable::Time { format }) = &components[i].data {
            formats.push(format.clone());
        }
        i += 1;
    }
    assert(list@.take(i as int) =~= list@);
    formats
}

/// Whether there is such a part.
pub open spec fn occurs(s: Seq<char>, part: Seq<char>) -> bool {
    exists|i: int|
        0 <= i <= s.len() - part.len() && #[trigger] s.subrange(i, i + part.len()) == part
}

/// Whether there are no variables.
pub open spec fn is_plain(pieces: Seq<Piece>) -> bool {
    forall|i: int| 0 <= i < pieces.len() ==> (#[trigger] pieces[i]) is Path
}

proof fn lemma_plain_is_kept(pieces: Seq<Piece>, class: Seq<char>, times: Seq<String>)
    requires
        is_plain(pieces),
    ensures
        rendered(pieces, class, times) == text_of(pieces),
    decreases pieces.len(),
{
    if pieces.len() > 0 {
        let rest = pieces.drop_last();
        assert forall|i: int| 0 <= i < rest.len() implies (#[trigger] rest[i]) is Path by {
            assert(rest[i] == pieces[i]);
        }
        lemma_plain_is_kept(rest, class, times);
        assert(pieces[pieces.len() - 1] is Path);
    }
}

/// A template without recognised variables is rendered as is.
pub proof fn unrecognised_text_is_kept(template: Seq<char>, class: Seq<char>, times: Seq<String>)
    requires
        is_plain(pieces(Seq::empty(), template)),
    ensures
        rendered(pieces(Seq::empty(), template), class, times) == template,
{
    pieces_make_up_template(Seq::empty(), template);
    lemma_plain_is_kept(pieces(Seq::empty(), template), class, times);
    assert(Seq::empty() + template =~= template);
}

/// A template without `{class}` and `{time:` is rendered as is.
pub proof fn template_without_variables_is_kept(
    template: Seq<char>,
    class: Seq<char>,
    times: Seq<String>,
)
    requires
        !occurs(template, braced("class"@)),
        !occurs(template, seq!['{'] + "time:"@),
    ensures
        rendered(pieces(Seq::empty(), template), class, times) == template,
{
    let all = pieces(Seq::empty(), template);
    pieces_make_up_template(Seq::empty(), template);
    assert(Seq::empty() + template =~= template);
    assert forall|i: int| 0 <= i < all.len() implies (#[trigger] all[i]) is Path by {
        lemma_prefix_text(all, i + 1);
        let next = all.take(i + 1);
        assert(next.drop_last() =~= all.take(i));
        assert(next.last() == all[i]);
        let before = text_of(all.take(i));
        let at = before.len() as int;
        let tail = text_of(all.skip(i + 1));
        assert(template == before + all[i].text() + tail);
        let part = if all[i] is Class {
            braced("class"@)
        } else {
            seq!['{'] + "time:"@
        };
        if !(all[i] is Path) {
            assert(template.subrange(at, at + part.len()) =~= part);
        }
    }
    unrecognised_text_is_kept(template, class, times);
}

/// How many of the parts are times.
pub open spec fn time_count(pieces: Seq<Piece>) -> nat {
    pieces.filter(|piece: Piece| piece is Time).len()
}

proof fn lemma_time_count(pieces: Seq<Piece>)
    ensures
        formats_of(pieces).len() == time_count(pieces),
    decreases pieces.len(),
{
    reveal(Seq::filter);
    if pieces.len() > 0 {
        lemma_time_count(pieces.drop_last());
    }
}

/// Every part is rendered after ones before it: text as is, the class as the given
/// class, and the k-th time as the k-th formatted time.
pub proof fn parts_are_rendered_in_order(
    parts: Seq<Piece>,
    text: Seq<char>,
    format: Seq<char>,
    class: Seq<char>,
    times: Seq<String>,
)
    ensures
        rendered(Seq::empty(), class, times) == Seq::<char>::empty(),
        rendered(parts.push(Piece::Path(text)), class, times) == rendered(parts, class, times)
            + text,
        rendered(parts.push(Piece::Class), class, times) == rendered(parts, class, times) + class,
        rendered(parts.push(Piece::Time(format)), class, times) == rendered(parts, class, times)
            + times[time_count(parts) as int]@,
        formats_of(Seq::empty()) == Seq::<Seq<char>>::empty(),
        formats_of(parts.push(Piece::Path(text))) == formats_of(parts),
        formats_of(parts.push(Piece::Class)) == formats_of(parts),
        formats_of(parts.push(Piece::Time(format))) == formats_of(parts).push(format),
{
    lemma_time_count(parts);
    assert(parts.push(Piece::Path(text)).drop_last() =~= parts);
    assert(parts.push(Piece::Class).drop_last() =~= parts);
    assert(parts.push(Piece::Time(format)).drop_last() =~= parts);
}

/// Whether every opening brace is followed by a closing one.
pub open spec fn is_closed(s: Seq<char>) -> bool {
    forall|i: int|
        0 <= i < s.len() && s[i] == '{' ==> exists|j: int| i < j < s.len() && s[j] == '}'
}

proof fn lemma_text_before(plain: Seq<char>, text: Seq<char>, s: Seq<char>)
    requires
        !text.contains('{'),
    ensures
        pieces(plain, text + s) == pieces(plain + text, s),
{
    lemma_position(s, '{');
    let open = position(s, '{');
    assert forall|i: int| 0 <= i < text.len() + open implies (text + s)[i] != '{' by {
        if i < text.len() {
            assert(text.contains(text[i]));
        }
    }
    lemma_position_is(text + s, '{', text.len() + open);
    if open == s.len() {
        assert(plain + (text + s) =~= plain + text + s);
    } else {
        assert((text + s).skip(text.len() + open + 1) =~= s.skip(open + 1));
        assert(plain + (text + s).take(text.len() + open) =~= plain + text + s.take(open));
        assert(plain + (text + s).take(text.len() + open + 1) =~= plain + text + s.take(open + 1));
    }
}

proof fn lemma_unclosed(plain: Seq<char>, s: Seq<char>)
    requires
        !s.contains('}'),
    ensures
        pieces(plain, s) == plain_piece(plain + s),
    decreases s.len(),
{
    lemma_position(s, '{');
    let open = position(s, '{');
    if open < s.len() {
        let rest = s.skip(open + 1);
        assert forall|i: int| 0 <= i < rest.len() implies rest[i] != '}' by {
            assert(s.contains(s[open + 1 + i]));
        }
        lemma_position_is(rest, '}', rest.len() as int);
        lemma_unclosed(plain + s.take(open + 1), rest);
        assert(plain + s.take(open + 1) + rest =~= plain + s);
    }
}

/// Parts of `a`, and what the rest of a template adds to them.
proof fn lemma_split(plain: Seq<char>, a: Seq<char>, tail: Seq<char>) -> (res: (
    Seq<Piece>,
    Seq<char>,
))
    requires
        is_closed(a),
    ensures
        pieces(plain, a) == res.0 + plain_piece(res.1),
        pieces(plain, a + tail) == res.0 + pieces(res.1, tail),
    decreases a.len(),
{
    lemma_position(a, '{');
    let open = position(a, '{');
    if open == a.len() {
        assert(!a.contains('{'));
        lemma_text_before(plain, a, tail);
        assert(Seq::<Piece>::empty() + pieces(plain + a, tail) =~= pieces(plain + a, tail));
        assert(Seq::<Piece>::empty() + plain_piece(plain + a) =~= plain_piece(plain + a));
        (Seq::empty(), plain + a)
    } else {
        let rest = a.skip(open + 1);
        lemma_position(rest, '}');
        let len = position(rest, '}');
        let j = choose|j: int| open < j < a.len() && a[j] == '}';
        assert(rest[j - open - 1] == '}');
        let after = rest.skip(len + 1);
        assert(is_closed(after)) by {
            assert forall|i: int| 0 <= i < after.len() && after[i] == '{' implies exists|j: int|
                i < j < after.len() && after[j] == '}' by {
                let shift = open + len + 2;
                assert(a[shift + i] == '{');
                let j = choose|j: int| shift + i < j < a.len() && a[j] == '}';
                assert(after[j - shift] == '}');
            }
        }
        lemma_position_is(a + tail, '{', open);
        assert((a + tail).skip(open + 1) =~= rest + tail);
        lemma_position_is(rest + tail, '}', len);
        assert((rest + tail).skip(len + 1) =~= after + tail);
        assert((rest + tail).take(len) =~= rest.take(len));
        assert((rest + tail).take(len + 1) =~= rest.take(len + 1));
        assert((a + tail).take(open) =~= a.take(open));
        assert((a + tail).take(open + 1) =~= a.take(open + 1));
        match variable(rest.take(len)) {
            Some(piece) => {
                let (done, text) = lemma_split(Seq::empty(), after, tail);
                let head = plain_piece(plain + a.take(open)) + seq![piece];
                assert(head + (done + plain_piece(text)) =~= head + done + plain_piece(text));
                assert(head + (done + pieces(text, tail)) =~= head + done + pieces(text, tail));
                (head + done, text)
            },
            None => lemma_split(plain + a.take(open + 1) + rest.take(len + 1), after, tail),
        }
    }
}

proof fn lemma_braced(text: Seq<char>, raw: Seq<char>)
    requires
        !raw.contains('}'),
    ensures
        pieces(text, braced(raw)) == match variable(raw) {
            Some(piece) => plain_piece(text).push(piece),
            None => plain_piece(text + braced(raw)),
        },
{
    let s = braced(raw);
    lemma_position_is(s, '{', 0);
    let rest = s.skip(1);
    assert(rest =~= raw + seq!['}']);
    assert forall|i: int| 0 <= i < raw.len() implies rest[i] != '}' by {
        assert(raw.contains(raw[i]));
    }
    lemma_position_is(rest, '}', raw.len() as int);
    assert(rest.take(raw.len() as int) =~= raw);
    let after = rest.skip(raw.len() + 1int);
    assert(after =~= Seq::<char>::empty());
    lemma_unclosed(Seq::empty(), after);
    lemma_unclosed(text + s.take(1) + rest.take(raw.len() + 1int), after);
    assert(text + s.take(1) + rest.take(raw.len() + 1int) + after =~= text + s);
    assert(text + s.take(0) =~= text);
    assert(Seq::<char>::empty() + after =~= Seq::<char>::empty());
    match variable(raw) {
        Some(piece) => {
            assert(plain_piece(text) + seq![piece] + Seq::<Piece>::empty() =~= plain_piece(
                text,
            ).push(piece));
        },
        None => {},
    }
}

proof fn lemma_rendered_plain(
    done: Seq<Piece>,
    text: Seq<char>,
    class: Seq<char>,
    times: Seq<String>,
)
    ensures
        rendered(done + plain_piece(text), class, times) == rendered(done, class, times) + text,
        formats_of(done + plain_piece(text)) == formats_of(done),
{
    parts_are_rendered_in_order(done, text, Seq::empty(), class, times);
    if text.len() == 0 {
        assert(done + plain_piece(text) =~= done);
        assert(rendered(done, class, times) + text =~= rendered(done, class, times));
    } else {
        assert(done + plain_piece(text) =~= done.push(Piece::Path(text)));
    }
}

proof fn lemma_more_times(pieces: Seq<Piece>, class: Seq<char>, times: Seq<String>, more: String)
    requires
        times.len() >= formats_of(pieces).len(),
    ensures
        rendered(pieces, class, times.push(more)) == rendered(pieces, class, times),
    decreases pieces.len(),
{
    if pieces.len() > 0 {
        lemma_more_times(pieces.drop_last(), class, times, more);
    }
}

/// A time is replaced with the time that is formatted for it: one more time in a
/// template needs one more formatted time, and it's the last one that is appended.
pub proof fn times_are_substituted(
    format: Seq<char>,
    a: String,
    b: String,
    valid_a: Vec<bool>,
    valid_b: Vec<bool>,
    path_a: DumpPath,
    path_b: DumpPath,
    vars_a: TemplateVariables<'_>,
    vars_b: TemplateVariables<'_>,
    more: String,
    to_a: &mut String,
    to_b: &mut String,
)
    requires
        is_closed(a@),
        !format.contains('}'),
        b@ == a@ + seq!['{'] + "time:"@ + format + seq!['}'],
        call_ensures(DumpPath::parse, (a, &valid_a), Ok(path_a)),
        call_ensures(DumpPath::parse, (b, &valid_b), Ok(path_b)),
        vars_a.class@ == vars_b.class@,
        vars_a.times.len() == formats_of(path_a.pieces()).len(),
        vars_b.times@ == vars_a.times@.push(more),
        call_ensures(DumpPath::render_into, (&path_a, &vars_a, to_a), ()),
        call_ensures(DumpPath::render_into, (&path_b, &vars_b, to_b), ()),
    ensures
        old(to_a)@.is_prefix_of(final(to_a)@),
        final(to_b)@ == old(to_b)@ + final(to_a)@.skip(old(to_a)@.len() as int) + more@,
{
    let raw = "time:"@ + format;
    reveal_strlit("time:");
    reveal_strlit("class");
    assert(!raw.contains('}')) by {
        if raw.contains('}') {
            let i = choose|i: int| 0 <= i < raw.len() && raw[i] == '}';
            if i >= 5 {
                assert(format.contains(format[i - 5]));
            }
        }
    }
    assert(raw != "class"@) by {
        assert(raw[0] == 't');
        assert("class"@[0] == 'c');
    }
    assert(raw.skip(5) =~= format);
    assert("time:"@.is_prefix_of(raw)) by {
        assert(raw.take(5) =~= "time:"@);
    }
    assert(b@ =~= a@ + braced(raw));
    lemma_variable_at_end(a@, raw, Piece::Time(format));
    let class = vars_a.class@;
    let list = pieces(Seq::empty(), a@);
    parts_are_rendered_in_order(list, Seq::empty(), format, class, vars_b.times@);
    lemma_time_count(list);
    lemma_more_times(list, class, vars_a.times@, more);
    assert(final(to_a)@.skip(old(to_a)@.len() as int) =~= rendered(list, class, vars_a.times@));
    assert(final(to_a)@.take(old(to_a)@.len() as int) =~= old(to_a)@);
    assert(final(to_b)@ =~= old(to_b)@ + final(to_a)@.skip(old(to_a)@.len() as int) + more@);
}

/// The class is replaced with the given class, other text is kept as is: text
/// without opening braces, text that isn't a variable in braces, and text after a
/// brace that isn't closed.
pub proof fn class_is_substituted(
    part: Seq<char>,
    raw: Seq<char>,
    a: String,
    b: String,
    valid_a: Vec<bool>,
    valid_b: Vec<bool>,
    path_a: DumpPath,
    path_b: DumpPath,
    vars: TemplateVariables<'_>,
    to_a: &mut String,
    to_b: &mut String,
)
    requires
        is_closed(a@),
        b@ == a@ + part,
        call_ensures(DumpPath::parse, (a, &valid_a), Ok(path_a)),
        call_ensures(DumpPath::parse, (b, &valid_b), Ok(path_b)),
        call_ensures(DumpPath::render_into, (&path_a, &vars, to_a), ()),
        call_ensures(DumpPath::render_into, (&path_b, &vars, to_b), ()),
    ensures
        ({
            let rendered_a = final(to_a)@.skip(old(to_a)@.len() as int);
            &&& part == seq!['{'] + "class"@ + seq!['}'] ==> final(to_b)@ == old(to_b)@
                + rendered_a + vars.class@
            &&& !part.contains('{') ==> final(to_b)@ == old(to_b)@ + rendered_a + part
            &&& !part.contains('}') ==> final(to_b)@ == old(to_b)@ + rendered_a + part
            &&& part == seq!['{'] + raw + seq!['}'] && !raw.contains('}') && raw != "class"@
                && !"time:"@.is_prefix_of(raw) ==> final(to_b)@ == old(to_b)@ + rendered_a + part
        }),
{
    reveal_strlit("class");
    let class = vars.class@;
    let times = vars.times@;
    let list = pieces(Seq::empty(), a@);
    let rendered_a = final(to_a)@.skip(old(to_a)@.len() as int);
    assert(rendered_a =~= rendered(list, class, times));
    let (done, text) = lemma_split(Seq::empty(), a@, part);
    lemma_rendered_plain(done, text, class, times);
    lemma_rendered_plain(done, text + part, class, times);
    assert(rendered(done, class, times) + (text + part) =~= rendered(done, class, times) + text
        + part);
    assert(old(to_b)@ + (rendered_a + part) =~= old(to_b)@ + rendered_a + part);
    if part == seq!['{'] + "class"@ + seq!['}'] {
        assert(!"class"@.contains('}'));
        lemma_variable_at_end(a@, "class"@, Piece::Class);
        assert(part =~= braced("class"@));
        parts_are_rendered_in_order(list, Seq::empty(), Seq::empty(), class, times);
        assert(old(to_b)@ + (rendered_a + class) =~= old(to_b)@ + rendered_a + class);
    }
    if !part.contains('{') {
        lemma_text_before(text, part, Seq::empty());
        assert(part + Seq::<char>::empty() =~= part);
        lemma_unclosed(text + part, Seq::empty());
        assert(text + part + Seq::<char>::empty() =~= text + part);
    }
    if !part.contains('}') {
        lemma_unclosed(text, part);
    }
    if part == seq!['{'] + raw + seq!['}'] && !raw.contains('}') && raw != "class"@
        && !"time:"@.is_prefix_of(raw) {
        assert(part =~= braced(raw));
        lemma_braced(text, raw);
    }
}

/// Times of a template are asked for in order: one more time in the template is one
/// more format. Nothing else is a format.
pub proof fn formats_are_collected(
    part: Seq<char>,
    format: Seq<char>,
    a: &str,
    b: &str,
    formats_a: Vec<String>,
    formats_b: Vec<String>,
)
    requires
        is_closed(a@),
        b@ == a@ + part,
        call_ensures(DumpPath::time_formats, (a,), formats_a),
        call_ensures(DumpPath::time_formats, (b,), formats_b),
    ensures
        a@.len() == 0 ==> formats_a.len() == 0,
        part == seq!['{'] + "time:"@ + format + seq!['}'] && !format.contains('}') ==> {
            &&& formats_b.len() == formats_a.len() + 1
            &&& formats_b[formats_b.len() - 1]@ == format
        },
        !part.contains('{') || !part.contains('}') ==> formats_b.len() == formats_a.len(),
        forall|i: int|
            0 <= i < formats_a.len() && ({
                ||| !part.contains('{')
                ||| !part.contains('}')
                ||| part == seq!['{'] + "time:"@ + format + seq!['}'] && !format.contains('}')
            }) ==> (#[trigger] formats_b[i])@ == formats_a[i]@,
{
    reveal_strlit("class");
    reveal_strlit("time:");
    let list = pieces(Seq::empty(), a@);
    let (done, text) = lemma_split(Seq::empty(), a@, part);
    let times = Seq::<String>::empty();
    lemma_rendered_plain(done, text, Seq::empty(), times);
    lemma_rendered_plain(done, text + part, Seq::empty(), times);
    if a@.len() == 0 {
        lemma_unclosed(Seq::empty(), a@);
        assert(plain_piece(Seq::empty() + a@) =~= Seq::empty());
    }
    if !part.contains('{') {
        lemma_text_before(text, part, Seq::empty());
        assert(part + Seq::<char>::empty() =~= part);
        lemma_unclosed(text + part, Seq::empty());
        assert(text + part + Seq::<char>::empty() =~= text + part);
    }
    if !part.contains('}') {
        lemma_unclosed(text, part);
    }
    if part == seq!['{'] + "time:"@ + format + seq!['}'] && !format.contains('}') {
        let raw = "time:"@ + format;
        assert(!raw.contains('}')) by {
            if raw.contains('}') {
                let i = choose|i: int| 0 <= i < raw.len() && raw[i] == '}';
                if i >= 5 {
                    assert(format.contains(format[i - 5]));
                }
            }
        }
        assert(raw != "class"@) by {
            assert(raw[0] == 't');
            assert("class"@[0] == 'c');
        }
        assert(raw.skip(5) =~= format);
        assert("time:"@.is_prefix_of(raw)) by {
            assert(raw.take(5) =~= "time:"@);
        }
        assert(part =~= braced(raw));
        lemma_variable_at_end(a@, raw, Piece::Time(format));
        parts_are_rendered_in_order(list, Seq::empty(), format, Seq::empty(), times);
    }
}

proof fn lemma_variable_at_end(a: Seq<char>, raw: Seq<char>, piece: Piece)
    requires
        is_closed(a),
        !raw.contains('}'),
        variable(raw) == Some(piece),
    ensures
        pieces(Seq::empty(), a + braced(raw)) == pieces(Seq::empty(), a).push(piece),
{
    let (done, text) = lemma_split(Seq::empty(), a, braced(raw));
    lemma_braced(text, raw);
    assert(done + plain_piece(text).push(piece) =~= (done + plain_piece(text)).push(piece));
}

/// An empty template is rendered as nothing, and every template is rendered after what
/// is already there.
pub proof fn rendering_appends(
    template: String,
    valid: Vec<bool>,
    path: DumpPath,
    vars: TemplateVariables<'_>,
    to: &mut String,
    text: String,
)
    requires
        call_ensures(DumpPath::parse, (template, &valid), Ok(path)),
        call_ensures(DumpPath::render_into, (&path, &vars, to), ()),
        call_ensures(DumpPath::to_string, (&path,), text),
    ensures
        old(to)@.is_prefix_of(final(to)@),
        template@.len() == 0 ==> final(to)@ == old(to)@,
        text@ == template@,
{
    assert(final(to)@.take(old(to)@.len() as int) =~= old(to)@);
    if template@.len() == 0 {
        lemma_unclosed(Seq::empty(), template@);
        assert(plain_piece(Seq::empty() + template@) =~= Seq::empty());
        assert(final(to)@ =~= old(to)@);
    }
}

/// A template is accepted only if all its formats are, otherwise the first format that
/// isn't accepted is reported.
pub proof fn first_invalid_format_is_reported(
    template: String,
    text: &str,
    valid: Vec<bool>,
    res: Result<DumpPath, InvalidFormat>,
    formats: Vec<String>,
    i: int,
)
    requires
        text@ == template@,
        call_ensures(DumpPath::time_formats, (text,), formats),
        valid.len() == formats.len(),
        call_ensures(DumpPath::parse, (template, &valid), res),
    ensures
        res is Ok <==> !valid@.contains(false),
        0 <= i < valid.len() && !valid[i] && !valid@.take(i).contains(false) ==> (
        res matches Err(err) && err.format@ == formats[i]@),
{
    if res is Ok {
        assert(!valid@.contains(false));
    } else {
        let first = choose|k: int|
            {
                &&& 0 <= k < valid.len()
                &&& !(#[trigger] valid[k])
                &&& forall|j: int| 0 <= j < k ==> #[trigger] valid[j]
                &&& res->Err_0.format@ == formats_of(pieces(Seq::empty(), template@))[k]
            };
        assert(valid@.contains(valid@[first]));
        if 0 <= i < valid.len() && !valid[i] && !valid@.take(i).contains(false) {
            if first < i {
                assert(valid@.take(i)[first] == false);
            }
        }
    }
    if 0 <= i < valid.len() && !valid[i] {
        assert(valid@.contains(valid@[i]));
    }
}

/// Instructions follow parts of the template: sizes of all of them make up the template,
/// and variables are recognised.
pub proof fn instructions_follow_parts(
    a: String,
    b: String,
    raw: Seq<char>,
    format: Seq<char>,
    valid_a: Vec<bool>,
    valid_b: Vec<bool>,
    path_a: DumpPath,
    path_b: DumpPath,
    list_a: &Vec<Component>,
    list_b: &Vec<Component>,
    i: int,
)
    requires
        is_closed(a@),
        !raw.contains('}'),
        b@ == a@ + seq!['{'] + raw + seq!['}'],
        raw == "class"@ || raw == "time:"@ + format,
        call_ensures(DumpPath::parse, (a, &valid_a), Ok(path_a)),
        call_ensures(DumpPath::parse, (b, &valid_b), Ok(path_b)),
        call_ensures(DumpPath::components, (&path_a,), list_a),
        call_ensures(DumpPath::components, (&path_b,), list_b),
    ensures
        list_b@.len() == list_a@.len() + 1,
        0 <= i < list_a@.len() ==> list_b@[i].size == list_a@[i].size && (list_b@[i].data is Path
            <==> list_a@[i].data is Path),
        list_b@.last().size == encode_utf8(seq!['{'] + raw + seq!['}']).len(),
        raw == "class"@ ==> list_b@.last().data == ComponentData::Variable(Variable::Class),
        raw != "class"@ ==> (list_b@.last().data matches ComponentData::Variable(
            Variable::Time { format: stored },
        ) && stored@ == format),
        a@.len() == 0 ==> list_a@.len() == 0,
{
    reveal_strlit("class");
    reveal_strlit("time:");
    assert(b@ =~= a@ + braced(raw));
    let piece = if raw == "class"@ {
        Piece::Class
    } else {
        Piece::Time(format)
    };
    if raw != "class"@ {
        assert(raw.skip(5) =~= format);
        assert("time:"@.is_prefix_of(raw)) by {
            assert(raw.take(5) =~= "time:"@);
        }
    }
    lemma_variable_at_end(a@, raw, piece);
    lemma_variable_text(raw);
    let x = pieces(Seq::empty(), a@);
    let y = pieces(Seq::empty(), b@);
    assert(list_b@[y.len() - 1].renders(y[y.len() - 1]));
    if 0 <= i < list_a@.len() {
        assert(list_a@[i].renders(x[i]));
        assert(list_b@[i].renders(y[i]));
        assert(y[i] == x[i]);
    }
    if a@.len() == 0 {
        lemma_unclosed(Seq::empty(), a@);
        assert(plain_piece(Seq::empty() + a@) =~= Seq::empty());
    }
}

} // verus!
