//! Key bindings of pane commands.
use crate::text::{chars_of, same_text, string_of};
use vstd::prelude::*;

verus! {

/// A set of modifier keys, one bit per key.
#[derive(Debug, Clone, Copy, PartialEq, Eq, Structural)]
pub struct KeyModifiers {
    pub bits: u8,
}

impl KeyModifiers {
    pub const CMD: u8 = 0x01;
    pub const SHIFT: u8 = 0x02;
    pub const CTRL: u8 = 0x04;
    pub const ALT: u8 = 0x08;

    pub open spec fn command(self) -> bool {
        self.bits & 1u8 != 0
    }

    pub open spec fn shift(self) -> bool {
        self.bits & 2u8 != 0
    }

    pub open spec fn control(self) -> bool {
        self.bits & 4u8 != 0
    }

    pub open spec fn alt(self) -> bool {
        self.bits & 8u8 != 0
    }

    pub fn empty() -> (r: KeyModifiers)
        ensures
            r.bits == 0,
    {
        KeyModifiers { bits: 0 }
    }

    pub fn from_bits(bits: u8) -> (r: KeyModifiers)
        ensures
            r.bits == bits,
    {
        KeyModifiers { bits }
    }

    pub fn insert(&mut self, mask: u8)
        ensures
            final(self).bits == old(self).bits | mask,
    {
        self.bits = self.bits | mask;
    }
}

/// Each modifier has a bit of its own.
pub proof fn lemma_modifier_bits()
    ensures
        forall|bits: u8, mask: u8|
            #![trigger bits | mask]
            mask == 1 || mask == 2 || mask == 4 || mask == 8 ==> {
                &&& ((bits | mask) & 1u8 != 0) == (bits & 1u8 != 0 || mask == 1)
                &&& ((bits | mask) & 2u8 != 0) == (bits & 2u8 != 0 || mask == 2)
                &&& ((bits | mask) & 4u8 != 0) == (bits & 4u8 != 0 || mask == 4)
                &&& ((bits | mask) & 8u8 != 0) == (bits & 8u8 != 0 || mask == 8)
                &&& (bits < 16 ==> (bits | mask) < 16)
            },
        0u8 & 1u8 == 0 && 0u8 & 2u8 == 0 && 0u8 & 4u8 == 0 && 0u8 & 8u8 == 0,
{
    assert forall|bits: u8, mask: u8|
        #![trigger bits | mask]
        mask == 1 || mask == 2 || mask == 4 || mask == 8 implies {
        &&& ((bits | mask) & 1u8 != 0) == (bits & 1u8 != 0 || mask == 1)
        &&& ((bits | mask) & 2u8 != 0) == (bits & 2u8 != 0 || mask == 2)
        &&& ((bits | mask) & 4u8 != 0) == (bits & 4u8 != 0 || mask == 4)
        &&& ((bits | mask) & 8u8 != 0) == (bits & 8u8 != 0 || mask == 8)
        &&& (bits < 16 ==> (bits | mask) < 16)
    } by {
        assert(((bits | 1u8) & 1u8 != 0) && ((bits | 2u8) & 2u8 != 0) && ((bits | 4u8) & 4u8 != 0)
            && ((bits | 8u8) & 8u8 != 0)) by (bit_vector);
        assert((bits | 1u8) & 2u8 == bits & 2u8 && (bits | 1u8) & 4u8 == bits & 4u8 && (bits | 1u8)
            & 8u8 == bits & 8u8 && (bits | 2u8) & 1u8 == bits & 1u8 && (bits | 2u8) & 4u8 == bits
            & 4u8 && (bits | 2u8) & 8u8 == bits & 8u8 && (bits | 4u8) & 1u8 == bits & 1u8 && (bits
            | 4u8) & 2u8 == bits & 2u8 && (bits | 4u8) & 8u8 == bits & 8u8 && (bits | 8u8) & 1u8
            == bits & 1u8 && (bits | 8u8) & 2u8 == bits & 2u8 && (bits | 8u8) & 4u8 == bits & 4u8)
            by (bit_vector);
        assert(bits < 16 ==> (bits | 1u8) < 16 && (bits | 2u8) < 16 && (bits | 4u8) < 16 && (bits
            | 8u8) < 16) by (bit_vector);
    }
    assert(0u8 & 1u8 == 0 && 0u8 & 2u8 == 0 && 0u8 & 4u8 == 0 && 0u8 & 8u8 == 0) by (bit_vector);
}

#[derive(Debug, Clone, Copy, PartialEq, Eq, Structural)]
pub struct KeyBind {
    pub key_code: u16,
    pub modifiers: KeyModifiers,
}

#[derive(Debug, Clone, Copy, PartialEq, Eq, Structural)]
pub enum PaneAction {
    SplitVertical,
    SplitHorizontal,
    ClosePane,
    FocusLeft,
    FocusDown,
    FocusUp,
    FocusRight,
    ResizeLeft,
    ResizeDown,
    ResizeUp,
    ResizeRight,
}

/// The key that is configured for each pane command, such as `cmd+shift+d`.
#[derive(Debug)]
pub struct KeybindConfig {
    pub split_vertical: String,
    pub split_horizontal: String,
    pub close_pane: String,
    pub focus_left: String,
    pub focus_down: String,
    pub focus_up: String,
    pub focus_right: String,
    pub resize_left: String,
    pub resize_down: String,
    pub resize_up: String,
    pub resize_right: String,
}

/// A text in lower case, as `str::to_lowercase` gives it.
pub uninterp spec fn lowercase(text: Seq<char>) -> Seq<char>;

/// `str::to_lowercase` maps each scalar by the Unicode tables that the standard
/// library carries; the result depends on the text alone. ASCII text has its
/// capital letters replaced and keeps everything else.
#[verifier::external_body]
fn to_lowercase(text: &str) -> (r: String)
    ensures
        r@ == lowercase(text@),
        is_ascii_text(text@) ==> r@ == ascii_lowercase(text@),
{
    text.to_lowercase()
}

/// Every scalar is ASCII.
pub open spec fn is_ascii_text(text: Seq<char>) -> bool {
    forall|i: int| 0 <= i < text.len() ==> (#[trigger] text[i]) as u32 <= 0x7f
}

/// A text in lower case, which for ASCII text is known letter by letter.
pub open spec fn in_lower_case(text: Seq<char>) -> Seq<char> {
    if is_ascii_text(text) { ascii_lowercase(text) } else { lowercase(text) }
}

/// ASCII capital letters replaced by small ones.
pub open spec fn ascii_lowercase(text: Seq<char>) -> Seq<char> {
    Seq::new(
        text.len(),
        |i: int| if 'A' <= text[i] <= 'Z' { (text[i] as u32 + 32) as char } else { text[i] },
    )
}

/// The parts of a text between plus signs.
pub open spec fn plus_parts(text: Seq<char>) -> Seq<Seq<char>>
    decreases text.len(),
{
    if text.len() == 0 {
        seq![Seq::empty()]
    } else {
        let before = plus_parts(text.drop_last());
        if text.last() == '+' {
            before.push(Seq::empty())
        } else {
            before.update(before.len() - 1, before.last().push(text.last()))
        }
    }
}

/// The bit of a modifier name in lower case.
pub open spec fn modifier_bit(name: Seq<char>) -> Option<u8> {
    if name == "cmd"@ || name == "command"@ || name == "super"@ {
        Some(1u8)
    } else if name == "shift"@ {
        Some(2u8)
    } else if name == "ctrl"@ || name == "control"@ {
        Some(4u8)
    } else if name == "alt"@ || name == "option"@ {
        Some(8u8)
    } else {
        None
    }
}

/// The hardware key of a letter in lower case.
pub open spec fn letter_code(c: char) -> Option<u16> {
    match c {
        'a' => Some(0u16),
        's' => Some(1),
        'd' => Some(2),
        'f' => Some(3),
        'h' => Some(4),
        'g' => Some(5),
        'z' => Some(6),
        'x' => Some(7),
        'c' => Some(8),
        'v' => Some(9),
        'b' => Some(11),
        'q' => Some(12),
        'w' => Some(13),
        'e' => Some(14),
        'r' => Some(15),
        'y' => Some(16),
        't' => Some(17),
        'o' => Some(31),
        'u' => Some(32),
        'i' => Some(34),
        'p' => Some(35),
        'l' => Some(37),
        'j' => Some(38),
        'k' => Some(40),
        'n' => Some(45),
        'm' => Some(46),
        _ => None,
    }
}

/// The hardware key of a key name in lower case.
pub open spec fn key_code(name: Seq<char>) -> Option<u16> {
    if name.len() == 1 { letter_code(name[0]) } else { None }
}

/// The parts of a binding, each in lower case: the modifiers among them add
/// up, and the last other part names the key.
pub open spec fn bound_key(lowered: Seq<Seq<char>>) -> (u8, Seq<char>)
    decreases lowered.len(),
{
    if lowered.len() == 0 {
        (0, Seq::empty())
    } else {
        let (bits, name) = bound_key(lowered.drop_last());
        match modifier_bit(lowered.last()) {
            Some(bit) => (bits | bit, name),
            None => (bits, lowered.last()),
        }
    }
}

/// The binding of parts in lower case, if they name a key.
pub open spec fn binding_of(lowered: Seq<Seq<char>>) -> Option<KeyBind> {
    let (bits, name) = bound_key(lowered);
    match key_code(name) {
        Some(code) => Some(KeyBind { key_code: code, modifiers: KeyModifiers { bits } }),
        None => None,
    }
}

/// The parts of a binding in lower case.
pub open spec fn lowered_parts(text: Seq<char>) -> Seq<Seq<char>> {
    Seq::new(plus_parts(text).len(), |i: int| in_lower_case(plus_parts(text)[i]))
}

/// The hardware key of a key name in any case.
pub fn key_name_to_code(name: &str) -> (r: Option<u16>)
    ensures
        r == key_code(in_lower_case(name@)),
{
    let lowered: String = to_lowercase(name);
    lowered_key_code(lowered.as_str())
}

pub fn lowered_key_code(name: &str) -> (r: Option<u16>)
    ensures
        r == key_code(name@),
{
    let chars: Vec<char> = chars_of(name);
    if chars.len() != 1 {
        return None;
    }
    match chars[0] {
        'a' => Some(0),
        's' => Some(1),
        'd' => Some(2),
        'f' => Some(3),
        'h' => Some(4),
        'g' => Some(5),
        'z' => Some(6),
        'x' => Some(7),
        'c' => Some(8),
        'v' => Some(9),
        'b' => Some(11),
        'q' => Some(12),
        'w' => Some(13),
        'e' => Some(14),
        'r' => Some(15),
        'y' => Some(16),
        't' => Some(17),
        'o' => Some(31),
        'u' => Some(32),
        'i' => Some(34),
        'p' => Some(35),
        'l' => Some(37),
        'j' => Some(38),
        'k' => Some(40),
        'n' => Some(45),
        'm' => Some(46),
        _ => None,
    }
}

fn modifier_mask(name: &str) -> (r: Option<u8>)
    ensures
        r == modifier_bit(name@),
{
    if same_text(name, "cmd") || same_text(name, "command") || same_text(name, "super") {
        Some(KeyModifiers::CMD)
    } else if same_text(name, "shift") {
        Some(KeyModifiers::SHIFT)
    } else if same_text(name, "ctrl") || same_text(name, "control") {
        Some(KeyModifiers::CTRL)
    } else if same_text(name, "alt") || same_text(name, "option") {
        Some(KeyModifiers::ALT)
    } else {
        None
    }
}

/// What each text of a sequence holds.
pub open spec fn text_views(texts: Seq<String>) -> Seq<Seq<char>> {
    Seq::new(texts.len(), |i: int| texts[i]@)
}

/// The parts of a text between plus signs.
pub fn split_plus(text: &str) -> (r: Vec<String>)
    ensures
        text_views(r@) == plus_parts(text@),
{
    let chars: Vec<char> = chars_of(text);
    let mut parts: Vec<String> = Vec::new();
    let mut part: Vec<char> = Vec::new();
    let mut i: usize = 0;
    proof {
        assert(text@.take(0) =~= Seq::<char>::empty());
        assert(text_views(parts@).push(part@) =~= seq![Seq::<char>::empty()]);
    }
    while i < chars.len()
        invariant
            i <= chars@.len(),
            chars@ == text@,
            text_views(parts@).push(part@) == plus_parts(text@.take(i as int)),
        decreases chars@.len() - i,
    {
        let c: char = chars[i];
        let ghost before = text_views(parts@).push(part@);
        proof {
            let prefix = text@.take(i + 1);
            assert(prefix.drop_last() =~= text@.take(i as int));
            assert(prefix.last() == c);
        }
        if c == '+' {
            let done: String = string_of(&part);
            let ghost held = text_views(parts@);
            parts.push(done);
            part = Vec::new();
            proof {
                assert(text_views(parts@) =~= held.push(done@));
                assert(text_views(parts@).push(part@) =~= before.push(Seq::empty()));
            }
        } else {
            part.push(c);
            proof {
                assert(text_views(parts@).push(part@) =~= before.update(
                    before.len() - 1,
                    before.last().push(c),
                ));
            }
        }
        i += 1;
    }
    let last: String = string_of(&part);
    let ghost held = text_views(parts@);
    parts.push(last);
    proof {
        assert(text@.take(i as int) =~= text@);
        assert(text_views(parts@) =~= held.push(last@));
    }
    parts
}

/// The binding of parts in lower case, if they name a key.
pub fn binding_of_parts(lowered: &Vec<String>) -> (r: Option<KeyBind>)
    ensures
        r == binding_of(text_views(lowered@)),
{
    let ghost views = text_views(lowered@);
    let mut bits: u8 = 0;
    let mut code: Option<u16> = None;
    let mut i: usize = 0;
    proof {
        assert(views.take(0) =~= Seq::<Seq<char>>::empty());
    }
    while i < lowered.len()
        invariant
            i <= lowered@.len(),
            views == text_views(lowered@),
            bits == bound_key(views.take(i as int)).0,
            code == key_code(bound_key(views.take(i as int)).1),
        decreases lowered@.len() - i,
    {
        proof {
            let prefix = views.take(i + 1);
            assert(prefix.drop_last() =~= views.take(i as int));
            assert(prefix.last() == lowered@[i as int]@);
        }
        match modifier_mask(lowered[i].as_str()) {
            Some(mask) => {
                bits = bits | mask;
            },
            None => {
                code = lowered_key_code(lowered[i].as_str());
            },
        }
        i += 1;
    }
    proof {
        assert(views.take(i as int) =~= views);
    }
    match code {
        Some(key_code) => Some(KeyBind { key_code, modifiers: KeyModifiers::from_bits(bits) }),
        None => None,
    }
}

/// Read a binding such as `cmd+shift+d`.
pub fn parse_keybind(text: &str) -> (r: Option<KeyBind>)
    ensures
        r == binding_of(lowered_parts(text@)),
{
    let parts: Vec<String> = split_plus(text);
    let mut lowered: Vec<String> = Vec::new();
    let mut i: usize = 0;
    while i < parts.len()
        invariant
            i <= parts@.len(),
            text_views(parts@) == plus_parts(text@),
            lowered@.len() == i,
            forall|j: int|
                0 <= j < i ==> (#[trigger] lowered@[j])@ == in_lower_case(plus_parts(text@)[j]),
        decreases parts@.len() - i,
    {
        proof {
            assert(text_views(parts@)[i as int] == parts@[i as int]@);
        }
        lowered.push(to_lowercase(parts[i].as_str()));
        i += 1;
    }
    proof {
        assert(text_views(lowered@) =~= lowered_parts(text@));
    }
    binding_of_parts(&lowered)
}

/// Some part names a modifier.
pub open spec fn names_modifier(lowered: Seq<Seq<char>>, bit: u8) -> bool {
    exists|i: int| 0 <= i < lowered.len() && modifier_bit(#[trigger] lowered[i]) == Some(bit)
}

proof fn lemma_bits_are_named(lowered: Seq<Seq<char>>)
    ensures
        ({
            let bits = bound_key(lowered).0;
            &&& bits < 16
            &&& (bits & 1u8 != 0) == names_modifier(lowered, 1)
            &&& (bits & 2u8 != 0) == names_modifier(lowered, 2)
            &&& (bits & 4u8 != 0) == names_modifier(lowered, 4)
            &&& (bits & 8u8 != 0) == names_modifier(lowered, 8)
        }),
    decreases lowered.len(),
{
    lemma_modifier_bits();
    if lowered.len() > 0 {
        let before = lowered.drop_last();
        lemma_bits_are_named(before);
        lemma_named_step(lowered, 1);
        lemma_named_step(lowered, 2);
        lemma_named_step(lowered, 4);
        lemma_named_step(lowered, 8);
        let bits = bound_key(before).0;
        if let Some(bit) = modifier_bit(lowered.last()) {
            assert(bound_key(lowered).0 == bits | bit);
        }
    }
}

proof fn lemma_named_step(lowered: Seq<Seq<char>>, bit: u8)
    requires
        lowered.len() > 0,
    ensures
        names_modifier(lowered, bit) == (names_modifier(lowered.drop_last(), bit) || modifier_bit(
            lowered.last(),
        ) == Some(bit)),
{
    let before = lowered.drop_last();
    if names_modifier(before, bit) {
        let i = choose|i: int|
            0 <= i < before.len() && modifier_bit(#[trigger] before[i]) == Some(bit);
        assert(lowered[i] == before[i]);
    }
    if modifier_bit(lowered.last()) == Some(bit) {
        assert(lowered[lowered.len() - 1] == lowered.last());
    }
    if names_modifier(lowered, bit) {
        let i = choose|i: int|
            0 <= i < lowered.len() && modifier_bit(#[trigger] lowered[i]) == Some(bit);
        if i < before.len() {
            assert(before[i] == lowered[i]);
        }
    }
}

/// Two bindings that name the same key and the same modifiers are the same, in
/// whatever order, however often and by whichever of their names the modifiers
/// are given.
pub proof fn law_modifier_order_is_free(left: Seq<Seq<char>>, right: Seq<Seq<char>>)
    requires
        bound_key(left).1 == bound_key(right).1,
        names_modifier(left, KeyModifiers::CMD) == names_modifier(right, KeyModifiers::CMD),
        names_modifier(left, KeyModifiers::SHIFT) == names_modifier(right, KeyModifiers::SHIFT),
        names_modifier(left, KeyModifiers::CTRL) == names_modifier(right, KeyModifiers::CTRL),
        names_modifier(left, KeyModifiers::ALT) == names_modifier(right, KeyModifiers::ALT),
    ensures
        binding_of(left) == binding_of(right),
{
    lemma_bits_are_named(left);
    lemma_bits_are_named(right);
    let one = bound_key(left).0;
    let other = bound_key(right).0;
    assert(one == other) by (bit_vector)
        requires
            one < 16,
            other < 16,
            (one & 1u8 != 0) == (other & 1u8 != 0),
            (one & 2u8 != 0) == (other & 2u8 != 0),
            (one & 4u8 != 0) == (other & 4u8 != 0),
            (one & 8u8 != 0) == (other & 8u8 != 0),
    ;
}

/// A modifier may go by any of its names.
pub proof fn law_modifier_names_agree(lowered: Seq<Seq<char>>, at: int, name: Seq<char>)
    requires
        0 <= at < lowered.len(),
        modifier_bit(name) is Some,
        modifier_bit(name) == modifier_bit(lowered[at]),
    ensures
        binding_of(lowered.update(at, name)) == binding_of(lowered),
{
    lemma_renamed(lowered, at, name);
}

proof fn lemma_renamed(lowered: Seq<Seq<char>>, at: int, name: Seq<char>)
    requires
        0 <= at < lowered.len(),
        modifier_bit(name) is Some,
        modifier_bit(name) == modifier_bit(lowered[at]),
    ensures
        bound_key(lowered.update(at, name)) == bound_key(lowered),
    decreases lowered.len(),
{
    let renamed = lowered.update(at, name);
    if at < lowered.len() - 1 {
        lemma_renamed(lowered.drop_last(), at, name);
        assert(renamed.drop_last() =~= lowered.drop_last().update(at, name));
    } else {
        assert(renamed.drop_last() =~= lowered.drop_last());
    }
}

/// Small letters keep the parts of an ASCII text apart as they were.
proof fn lemma_parts_of_lower_case(text: Seq<char>)
    requires
        is_ascii_text(text),
    ensures
        plus_parts(text).len() > 0,
        forall|i: int|
            0 <= i < plus_parts(text).len() ==> is_ascii_text(#[trigger] plus_parts(text)[i]),
        plus_parts(ascii_lowercase(text)) == plus_parts(text).map_values(
            |part: Seq<char>| ascii_lowercase(part),
        ),
    decreases text.len(),
{
    let lowered = ascii_lowercase(text);
    let mapped = plus_parts(text).map_values(|part: Seq<char>| ascii_lowercase(part));
    if text.len() == 0 {
        assert(ascii_lowercase(Seq::<char>::empty()) =~= Seq::<char>::empty());
        assert(plus_parts(lowered) =~= mapped);
    } else {
        let before = text.drop_last();
        let c = text.last();
        assert forall|i: int| 0 <= i < before.len() implies (#[trigger] before[i]) as u32
            <= 0x7f by {
            assert(before[i] == text[i]);
        }
        lemma_parts_of_lower_case(before);
        assert(lowered.drop_last() =~= ascii_lowercase(before));
        assert(text[text.len() - 1] as u32 <= 0x7f);
        let parts = plus_parts(before);
        let small = if 'A' <= c <= 'Z' { (c as u32 + 32) as char } else { c };
        assert(lowered.last() == small);
        assert(small == '+' <==> c == '+');
        if c == '+' {
            assert(ascii_lowercase(Seq::<char>::empty()) =~= Seq::<char>::empty());
            assert(is_ascii_text(Seq::<char>::empty()));
            assert(plus_parts(lowered) =~= mapped);
        } else {
            assert(is_ascii_text(parts.last()));
            assert(is_ascii_text(parts.last().push(c)));
            assert(ascii_lowercase(parts.last().push(c)) =~= ascii_lowercase(parts.last()).push(
                small,
            ));
            assert(plus_parts(lowered) =~= mapped);
        }
        assert forall|i: int| 0 <= i < plus_parts(text).len() implies is_ascii_text(
            #[trigger] plus_parts(text)[i],
        ) by {
            if i < parts.len() - 1 {
                assert(plus_parts(text)[i] == parts[i]);
            }
        }
    }
}

/// Capital and small ASCII letters make no difference to a binding.
pub proof fn law_binding_ignores_case(left: Seq<char>, right: Seq<char>)
    requires
        is_ascii_text(left),
        is_ascii_text(right),
        ascii_lowercase(left) == ascii_lowercase(right),
    ensures
        binding_of(lowered_parts(left)) == binding_of(lowered_parts(right)),
{
    lemma_parts_of_lower_case(left);
    lemma_parts_of_lower_case(right);
    assert(lowered_parts(left) =~= plus_parts(ascii_lowercase(left)));
    assert(lowered_parts(right) =~= plus_parts(ascii_lowercase(right)));
}

pub struct KeybindMap {
    pub bindings: Vec<(KeyBind, PaneAction)>,
}

/// The first action that is bound to a key.
pub open spec fn bound_action(
    bindings: Seq<(KeyBind, PaneAction)>,
    bind: KeyBind,
) -> Option<PaneAction>
    decreases bindings.len(),
{
    if bindings.len() == 0 {
        None
    } else if bindings[0].0 == bind {
        Some(bindings[0].1)
    } else {
        bound_action(bindings.drop_first(), bind)
    }
}

/// A binding, where the configured text names a key.
pub open spec fn with_binding(
    bindings: Seq<(KeyBind, PaneAction)>,
    bind: Option<KeyBind>,
    action: PaneAction,
) -> Seq<(KeyBind, PaneAction)> {
    match bind {
        Some(bind) => bindings.push((bind, action)),
        None => bindings,
    }
}

/// The bindings of a configuration, in a fixed order of the actions.
pub open spec fn configured(config: KeybindConfig) -> Seq<(KeyBind, PaneAction)> {
    let b0 = with_binding(
        Seq::empty(),
        binding_of(lowered_parts(config.split_vertical@)),
        PaneAction::SplitVertical,
    );
    let b1 = with_binding(
        b0,
        binding_of(lowered_parts(config.split_horizontal@)),
        PaneAction::SplitHorizontal,
    );
    let b2 = with_binding(b1, binding_of(lowered_parts(config.close_pane@)), PaneAction::ClosePane);
    let b3 = with_binding(b2, binding_of(lowered_parts(config.focus_left@)), PaneAction::FocusLeft);
    let b4 = with_binding(b3, binding_of(lowered_parts(config.focus_down@)), PaneAction::FocusDown);
    let b5 = with_binding(b4, binding_of(lowered_parts(config.focus_up@)), PaneAction::FocusUp);
    let b6 = with_binding(
        b5,
        binding_of(lowered_parts(config.focus_right@)),
        PaneAction::FocusRight,
    );
    let b7 = with_binding(
        b6,
        binding_of(lowered_parts(config.resize_left@)),
        PaneAction::ResizeLeft,
    );
    let b8 = with_binding(
        b7,
        binding_of(lowered_parts(config.resize_down@)),
        PaneAction::ResizeDown,
    );
    let b9 = with_binding(b8, binding_of(lowered_parts(config.resize_up@)), PaneAction::ResizeUp);
    with_binding(b9, binding_of(lowered_parts(config.resize_right@)), PaneAction::ResizeRight)
}

impl KeybindMap {
    fn bind(&mut self, text: &str, action: PaneAction)
        ensures
            final(self).bindings@ == with_binding(
                old(self).bindings@,
                binding_of(lowered_parts(text@)),
                action,
            ),
    {
        if let Some(bind) = parse_keybind(text) {
            self.bindings.push((bind, action));
        }
    }

    pub fn from_config(config: &KeybindConfig) -> (r: KeybindMap)
        ensures
            r.bindings@ == configured(*config),
    {
        let mut map = KeybindMap { bindings: Vec::new() };
        map.bind(config.split_vertical.as_str(), PaneAction::SplitVertical);
        map.bind(config.split_horizontal.as_str(), PaneAction::SplitHorizontal);
        map.bind(config.close_pane.as_str(), PaneAction::ClosePane);
        map.bind(config.focus_left.as_str(), PaneAction::FocusLeft);
        map.bind(config.focus_down.as_str(), PaneAction::FocusDown);
        map.bind(config.focus_up.as_str(), PaneAction::FocusUp);
        map.bind(config.focus_right.as_str(), PaneAction::FocusRight);
        map.bind(config.resize_left.as_str(), PaneAction::ResizeLeft);
        map.bind(config.resize_down.as_str(), PaneAction::ResizeDown);
        map.bind(config.resize_up.as_str(), PaneAction::ResizeUp);
        map.bind(config.resize_right.as_str(), PaneAction::ResizeRight);
        map
    }

    pub fn lookup(&self, key_code: u16, modifiers: KeyModifiers) -> (r: Option<PaneAction>)
        ensures
            r == bound_action(self.bindings@, KeyBind { key_code, modifiers }),
    {
        let mut i: usize = 0;
        let ghost bind = KeyBind { key_code, modifiers };
        proof {
            assert(self.bindings@.skip(0) =~= self.bindings@);
        }
        while i < self.bindings.len()
            invariant
                i <= self.bindings@.len(),
                bind == (KeyBind { key_code, modifiers }),
                bound_action(self.bindings@.skip(i as int), bind) == bound_action(
                    self.bindings@,
                    bind,
                ),
            decreases self.bindings@.len() - i,
        {
            let (bound, action) = self.bindings[i];
            proof {
                let rest = self.bindings@.skip(i as int);
                assert(rest[0] == self.bindings@[i as int]);
                assert(rest.drop_first() =~= self.bindings@.skip(i + 1));
            }
            if bound.key_code == key_code && bound.modifiers == modifiers {
                return Some(action);
            }
            i += 1;
        }
        None
    }
}

} // verus!
