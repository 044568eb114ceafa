//! The virtual keyboard: which keys are held, and the reports that say so.

use vstd::prelude::*;

use crate::control::AndroidKeyEventAction;

verus! {

/// The number of bytes in a keyboard report.
pub const UHID_KEYBOARD_REPORT_LEN: usize = 8;

/// The modifier bit of an Android key code. Counted from the lowest, the bits are control, shift,
/// alt and meta on the left, then the same on the right.
pub open spec fn modifier_mask(keycode: u32) -> Option<u8> {
    if keycode == 59 {
        Some(0x02u8)
    } else if keycode == 60 {
        Some(0x20u8)
    } else if keycode == 57 {
        Some(0x04u8)
    } else if keycode == 58 {
        Some(0x40u8)
    } else if keycode == 113 {
        Some(0x01u8)
    } else if keycode == 114 {
        Some(0x10u8)
    } else if keycode == 117 {
        Some(0x08u8)
    } else if keycode == 118 {
        Some(0x80u8)
    } else {
        None
    }
}

/// The keyboard usage of an Android key code: letters, digits, function keys, arrows, and the
/// usual control and punctuation keys.
pub open spec fn key_usage(keycode: u32) -> Option<u8> {
    if 29 <= keycode <= 54 {
        Some((keycode - 29 + 4) as u8)
    } else if keycode == 7 {
        Some(39u8)
    } else if 8 <= keycode <= 16 {
        Some((keycode - 8 + 30) as u8)
    } else if keycode == 66 {
        Some(40u8)
    } else if keycode == 67 {
        Some(42u8)
    } else if keycode == 61 {
        Some(43u8)
    } else if keycode == 62 {
        Some(44u8)
    } else if keycode == 111 {
        Some(41u8)
    } else if keycode == 19 {
        Some(82u8)
    } else if keycode == 20 {
        Some(81u8)
    } else if keycode == 21 {
        Some(80u8)
    } else if keycode == 22 {
        Some(79u8)
    } else if 131 <= keycode <= 142 {
        Some((keycode - 131 + 58) as u8)
    } else if keycode == 69 {
        Some(45u8)
    } else if keycode == 70 {
        Some(46u8)
    } else if keycode == 71 {
        Some(47u8)
    } else if keycode == 72 {
        Some(48u8)
    } else if keycode == 73 {
        Some(49u8)
    } else if keycode == 74 {
        Some(51u8)
    } else if keycode == 75 {
        Some(52u8)
    } else if keycode == 55 {
        Some(54u8)
    } else if keycode == 56 {
        Some(55u8)
    } else if keycode == 76 {
        Some(56u8)
    } else if keycode == 68 {
        Some(53u8)
    } else {
        None
    }
}

/// Whether the virtual keyboard has the key.
pub open spec fn is_supported(keycode: u32) -> bool {
    modifier_mask(keycode) is Some || key_usage(keycode) is Some
}

/// The modifier bit of an Android key code.
pub fn android_modifier_keycode_to_mask(keycode: u32) -> (r: Option<u8>)
    ensures
        r == modifier_mask(keycode),
{
    match keycode {
        59 => Some(0x02),
        60 => Some(0x20),
        57 => Some(0x04),
        58 => Some(0x40),
        113 => Some(0x01),
        114 => Some(0x10),
        117 => Some(0x08),
        118 => Some(0x80),
        _ => None,
    }
}

/// The keyboard usage of an Android key code.
pub fn android_keycode_to_hid_usage(keycode: u32) -> (r: Option<u8>)
    ensures
        r == key_usage(keycode),
        r != Some(0u8),
{
    if 29 <= keycode && keycode <= 54 {
        return Some((keycode - 29 + 4) as u8);
    }
    if 8 <= keycode && keycode <= 16 {
        return Some((keycode - 8 + 30) as u8);
    }
    if 131 <= keycode && keycode <= 142 {
        return Some((keycode - 131 + 58) as u8);
    }
    match keycode {
        7 => Some(39),
        66 => Some(40),
        67 => Some(42),
        61 => Some(43),
        62 => Some(44),
        111 => Some(41),
        19 => Some(82),
        20 => Some(81),
        21 => Some(80),
        22 => Some(79),
        69 => Some(45),
        70 => Some(46),
        71 => Some(47),
        72 => Some(48),
        73 => Some(49),
        74 => Some(51),
        75 => Some(52),
        55 => Some(54),
        56 => Some(55),
        76 => Some(56),
        68 => Some(53),
        _ => None,
    }
}

/// Whether the virtual keyboard has the key.
pub fn supports_android_keycode(keycode: u32) -> (r: bool)
    ensures
        r == is_supported(keycode),
{
    android_modifier_keycode_to_mask(keycode).is_some() || android_keycode_to_hid_usage(
        keycode,
    ).is_some()
}

/// The members of a set of bytes from `k` up, in ascending order.
pub open spec fn ascending(s: Set<u8>, k: int) -> Seq<u8>
    decreases 256 - k,
{
    if k >= 256 {
        Seq::empty()
    } else if s.contains(k as u8) {
        seq![k as u8] + ascending(s, k + 1)
    } else {
        ascending(s, k + 1)
    }
}

/// A sequence without one of its members.
pub open spec fn without(s: Seq<u8>, b: u8) -> Seq<u8> {
    s.remove(s.index_of(b))
}

/// Which keys are held: the modifier bits, and up to six other keys by their usage. `held` has
/// them in the order of the report, `order` in the order in which they were pressed.
#[verifier::ext_equal]
pub struct KeyboardView {
    pub modifiers: u8,
    pub held: Seq<u8>,
    pub order: Seq<u8>,
}

impl KeyboardView {
    /// At most six keys are held, none of them twice, and none is the empty usage. Both orders
    /// are of the same keys.
    pub open spec fn valid(self) -> bool {
        &&& self.held.len() <= 6
        &&& self.held.no_duplicates()
        &&& !self.held.contains(0u8)
        &&& self.order.len() == self.held.len()
        &&& self.order.no_duplicates()
        &&& forall|b: u8| #[trigger] self.order.contains(b) == self.held.contains(b)
    }

    /// No key is held.
    pub open spec fn released() -> KeyboardView {
        KeyboardView { modifiers: 0, held: Seq::empty(), order: Seq::empty() }
    }

    /// The state after a key went down. A key that is held stays where it is. A new key goes
    /// behind the others; where six are held, the one that was pressed first gives way.
    pub open spec fn pressed(self, usage: u8) -> KeyboardView {
        if self.held.contains(usage) {
            self
        } else if self.held.len() < 6 {
            KeyboardView {
                held: self.held.push(usage),
                order: self.order.push(usage),
                ..self
            }
        } else {
            KeyboardView {
                held: without(self.held, self.order[0]).push(usage),
                order: self.order.drop_first().push(usage),
                ..self
            }
        }
    }

    /// The state after a key went up: the keys that are still held, in ascending order. A key
    /// that was not held changes nothing.
    pub open spec fn let_go(self, usage: u8) -> KeyboardView {
        if self.held.contains(usage) {
            KeyboardView {
                held: ascending(self.held.to_set().remove(usage), 0),
                order: without(self.order, usage),
                ..self
            }
        } else {
            self
        }
    }

    /// The state after a key event. Keys that the keyboard does not have change nothing.
    pub open spec fn after(self, action: AndroidKeyEventAction, keycode: u32) -> KeyboardView {
        match modifier_mask(keycode) {
            Some(mask) => match action {
                AndroidKeyEventAction::Down => KeyboardView {
                    modifiers: self.modifiers | mask,
                    ..self
                },
                AndroidKeyEventAction::Up => KeyboardView {
                    modifiers: self.modifiers & !mask,
                    ..self
                },
            },
            None => match key_usage(keycode) {
                Some(usage) => match action {
                    AndroidKeyEventAction::Down => self.pressed(usage),
                    AndroidKeyEventAction::Up => self.let_go(usage),
                },
                None => self,
            },
        }
    }

    /// The report: the modifiers, an empty byte, and six slots with the held keys in front.
    pub open spec fn report(self) -> Seq<u8> {
        seq![self.modifiers, 0u8] + Seq::new(
            6,
            |i: int|
                if i < self.held.len() {
                    self.held[i]
                } else {
                    0u8
                },
        )
    }
}

/// The state of the virtual keyboard.
#[derive(Debug, Clone)]
pub struct UhidKeyboardState {
    modifiers: u8,
    held: Vec<u8>,
    order: Vec<u8>,
}

impl View for UhidKeyboardState {
    type V = KeyboardView;

    closed spec fn view(&self) -> KeyboardView {
        KeyboardView { modifiers: self.modifiers, held: self.held@, order: self.order@ }
    }
}

impl Default for UhidKeyboardState {
    /// A keyboard on which no key is held.
    fn default() -> (r: Self)
        ensures
            r@ == KeyboardView::released(),
            r@.valid(),
    {
        UhidKeyboardState { modifiers: 0, held: Vec::new(), order: Vec::new() }
    }
}

impl UhidKeyboardState {
    /// A keyboard on which no key is held.
    pub fn new() -> (r: Self)
        ensures
            r@ == KeyboardView::released(),
            r@.valid(),
    {
        UhidKeyboardState { modifiers: 0, held: Vec::new(), order: Vec::new() }
    }

    /// Takes in a key event.
    pub fn update_key(&mut self, action: AndroidKeyEventAction, keycode: u32)
        requires
            old(self)@.valid(),
        ensures
            final(self)@ == old(self)@.after(action, keycode),
            final(self)@.valid(),
    {
        if let Some(mask) = android_modifier_keycode_to_mask(keycode) {
            match action {
                AndroidKeyEventAction::Down => {
                    self.modifiers = self.modifiers | mask;
                },
                AndroidKeyEventAction::Up => {
                    self.modifiers = self.modifiers & !mask;
                },
            }
            return;
        }
        if let Some(usage) = android_keycode_to_hid_usage(keycode) {
            match action {
                AndroidKeyEventAction::Down => self.press_usage(usage),
                AndroidKeyEventAction::Up => self.release_usage(usage),
            }
        }
    }

    /// Lets every key go.
    pub fn release_all(&mut self)
        ensures
            final(self)@ == KeyboardView::released(),
            final(self)@.valid(),
    {
        self.modifiers = 0;
        self.held = Vec::new();
        self.order = Vec::new();
    }

    /// The report that says which keys are held.
    pub fn to_report(&self) -> (r: [u8; 8])
        requires
            self@.valid(),
        ensures
            r@ == self@.report(),
    {
        let r: [u8; 8] = [
            self.modifiers,
            0,
            self.slot(0),
            self.slot(1),
            self.slot(2),
            self.slot(3),
            self.slot(4),
            self.slot(5),
        ];
        assert(r@ =~= self@.report());
        r
    }

    fn slot(&self, i: usize) -> (r: u8)
        ensures
            r == if i < self@.held.len() {
                self@.held[i as int]
            } else {
                0
            },
    {
        if i < self.held.len() {
            self.held[i]
        } else {
            0
        }
    }

    fn is_held(&self, usage: u8) -> (r: bool)
        ensures
            r == self@.held.contains(usage),
    {
        find(&self.held, usage).is_some()
    }

    fn press_usage(&mut self, usage: u8)
        requires
            old(self)@.valid(),
            usage != 0,
        ensures
            final(self)@ == old(self)@.pressed(usage),
            final(self)@.valid(),
    {
        if self.is_held(usage) {
            return;
        }
        if self.held.len() >= 6 {
            let oldest: u8 = self.order.remove(0);
            assert(self.order@ =~= old(self)@.order.drop_first());
            assert(old(self)@.held.contains(oldest)) by {
                assert(old(self)@.order.contains(old(self)@.order[0]));
            }
            take_out(&mut self.held, oldest);
        }
        self.held.push(usage);
        self.order.push(usage);
        proof {
            assert(self@ =~= old(self)@.pressed(usage));
            lemma_pressed_valid(old(self)@, usage);
        }
    }

    fn release_usage(&mut self, usage: u8)
        requires
            old(self)@.valid(),
        ensures
            final(self)@ == old(self)@.let_go(usage),
            final(self)@.valid(),
    {
        if !self.is_held(usage) {
            return;
        }
        let ghost rest = self@.held.to_set().remove(usage);
        let mut out: Vec<u8> = Vec::new();
        let mut k: u16 = 0;
        assert(out@ + ascending(rest, 0) =~= ascending(rest, 0));
        while k < 256
            invariant
                k <= 256,
                rest == self@.held.to_set().remove(usage),
                out@ + ascending(rest, k as int) == ascending(rest, 0),
                *self == *old(self),
            decreases 256 - k,
        {
            let b: u8 = k as u8;
            let ghost before = out@;
            if b != usage && self.is_held(b) {
                out.push(b);
                assert(before + ascending(rest, k as int) =~= out@ + ascending(rest, k + 1));
            } else {
                assert(!rest.contains(b));
            }
            k = k + 1;
        }
        assert(out@ =~= ascending(rest, 0));
        assert(self@.order.contains(usage));
        self.held = out;
        take_out(&mut self.order, usage);
        proof {
            lemma_let_go_valid(old(self)@, usage);
        }
    }
}

/// Where a byte stands.
fn find(v: &Vec<u8>, b: u8) -> (r: Option<usize>)
    ensures
        match r {
            Some(i) => i < v@.len() && v@[i as int] == b,
            None => !v@.contains(b),
        },
{
    let mut i: usize = 0;
    while i < v.len()
        invariant
            i <= v.len(),
            forall|j: int| 0 <= j < i ==> v@[j] != b,
        decreases v.len() - i,
    {
        if v[i] == b {
            return Some(i);
        }
        i = i + 1;
    }
    None
}

/// Takes a byte out.
fn take_out(v: &mut Vec<u8>, b: u8)
    requires
        old(v)@.no_duplicates(),
        old(v)@.contains(b),
    ensures
        final(v)@ == without(old(v)@, b),
{
    if let Some(i) = find(v, b) {
        v.remove(i);
    }
}

proof fn lemma_without(s: Seq<u8>, b: u8)
    requires
        s.no_duplicates(),
        s.contains(b),
    ensures
        without(s, b).len() == s.len() - 1,
        without(s, b).no_duplicates(),
        forall|c: u8| #[trigger] without(s, b).contains(c) == (s.contains(c) && c != b),
{
    let k = s.index_of(b);
    let w = without(s, b);
    assert forall|c: u8| #[trigger] w.contains(c) == (s.contains(c) && c != b) by {
        if w.contains(c) {
            let i = choose|i: int| 0 <= i < w.len() && w[i] == c;
            assert(s[if i < k { i } else { i + 1 }] == c);
        }
        if s.contains(c) && c != b {
            let i = choose|i: int| 0 <= i < s.len() && s[i] == c;
            assert(w[if i < k { i } else { i - 1 }] == c);
        }
    }
}

proof fn lemma_push(s: Seq<u8>, b: u8)
    requires
        s.no_duplicates(),
        !s.contains(b),
    ensures
        s.push(b).no_duplicates(),
        forall|c: u8| #[trigger] s.push(b).contains(c) == (s.contains(c) || c == b),
{
    let p = s.push(b);
    assert forall|c: u8| #[trigger] p.contains(c) == (s.contains(c) || c == b) by {
        if s.contains(c) {
            let i = choose|i: int| 0 <= i < s.len() && s[i] == c;
            assert(p[i] == c);
        }
        assert(p[s.len() as int] == b);
        if p.contains(c) && c != b {
            let i = choose|i: int| 0 <= i < p.len() && p[i] == c;
            assert(s[i] == c);
        }
    }
}

/// With six keys held, the oldest is one of them, and the others are the rest of the order.
proof fn lemma_oldest(v: KeyboardView)
    requires
        v.valid(),
        v.held.len() == 6,
    ensures
        v.held.contains(v.order[0]),
        v.order.drop_first() == without(v.order, v.order[0]),
{
    assert(v.order.contains(v.order[0]));
    assert(v.order.index_of(v.order[0]) == 0);
    assert(v.order.drop_first() =~= v.order.remove(0));
}

proof fn lemma_pressed_valid(v: KeyboardView, usage: u8)
    requires
        v.valid(),
        usage != 0,
    ensures
        v.pressed(usage).valid(),
{
    if !v.held.contains(usage) {
        assert(!v.order.contains(usage));
        if v.held.len() < 6 {
            lemma_push(v.held, usage);
            lemma_push(v.order, usage);
        } else {
            lemma_oldest(v);
            lemma_without(v.held, v.order[0]);
            lemma_without(v.order, v.order[0]);
            lemma_push(without(v.held, v.order[0]), usage);
            lemma_push(without(v.order, v.order[0]), usage);
        }
    }
}

proof fn lemma_ascending(s: Set<u8>, k: int)
    requires
        0 <= k <= 256,
    ensures
        forall|i: int| 0 <= i < ascending(s, k).len() ==> s.contains(#[trigger] ascending(s, k)[i])
            && ascending(s, k)[i] >= k,
        forall|i: int, j: int|
            0 <= i < j < ascending(s, k).len() ==> ascending(s, k)[i] < ascending(s, k)[j],
        forall|b: u8| s.contains(b) && b >= k ==> ascending(s, k).contains(b),
    decreases 256 - k,
{
    if k < 256 {
        lemma_ascending(s, k + 1);
        let rest = ascending(s, k + 1);
        let all = ascending(s, k);
        if s.contains(k as u8) {
            assert forall|i: int| 0 <= i < all.len() implies s.contains(#[trigger] all[i])
                && all[i] >= k by {
                if i > 0 {
                    assert(all[i] == rest[i - 1]);
                }
            }
            assert forall|i: int, j: int| 0 <= i < j < all.len() implies all[i] < all[j] by {
                assert(all[j] == rest[j - 1]);
                if i > 0 {
                    assert(all[i] == rest[i - 1]);
                }
            }
            assert forall|b: u8| s.contains(b) && b >= k implies all.contains(b) by {
                if b == k {
                    assert(all[0] == b);
                } else {
                    assert(rest.contains(b));
                    let i = choose|i: int| 0 <= i < rest.len() && rest[i] == b;
                    assert(all[i + 1] == b);
                }
            }
        }
    }
}

proof fn lemma_let_go_valid(v: KeyboardView, usage: u8)
    requires
        v.valid(),
    ensures
        v.let_go(usage).valid(),
        v.held.contains(usage) ==> v.let_go(usage).held.to_set() == v.held.to_set().remove(usage),
{
    if v.held.contains(usage) {
        let s = v.held.to_set().remove(usage);
        let r = ascending(s, 0);
        lemma_ascending(s, 0);
        assert(r.no_duplicates());
        assert(r.to_set() =~= s) by {
            assert forall|b: u8| r.to_set().contains(b) <==> s.contains(b) by {
                if r.contains(b) {
                    let i = choose|i: int| 0 <= i < r.len() && r[i] == b;
                    assert(s.contains(r[i]));
                }
            }
        }
        r.unique_seq_to_set();
        v.held.unique_seq_to_set();
        assert(!s.contains(0u8));
        assert(v.order.contains(usage));
        lemma_without(v.order, usage);
        assert forall|b: u8| #[trigger] without(v.order, usage).contains(b) == r.contains(b) by {
            assert(r.to_set().contains(b) == s.contains(b));
        }
    }
}

/// A key event keeps the keyboard's state valid.
pub proof fn law_key_event_valid(v: KeyboardView, action: AndroidKeyEventAction, keycode: u32)
    requires
        v.valid(),
    ensures
        v.after(action, keycode).valid(),
{
    if let Some(usage) = key_usage(keycode) {
        lemma_let_go_valid(v, usage);
        lemma_pressed_valid(v, usage);
    }
}

/// Pressing a key that is not held, with a slot free, and letting it go leaves the same keys
/// held as before, pressed in the same order.
pub proof fn law_press_and_let_go(v: KeyboardView, usage: u8)
    requires
        v.valid(),
        usage != 0,
        !v.held.contains(usage),
        v.held.len() < 6,
    ensures
        v.pressed(usage).let_go(usage).held.to_set() == v.held.to_set(),
        v.pressed(usage).let_go(usage).order == v.order,
        v.pressed(usage).let_go(usage).modifiers == v.modifiers,
{
    let p = v.pressed(usage);
    lemma_push(v.held, usage);
    assert(!v.order.contains(usage));
    lemma_pressed_valid(v, usage);
    lemma_let_go_valid(p, usage);
    assert(p.held.contains(usage));
    assert(p.held.to_set().remove(usage) =~= v.held.to_set()) by {
        assert forall|b: u8| p.held.to_set().remove(usage).contains(b) <==> v.held.to_set().contains(
            b,
        ) by {
            assert(p.held.contains(b) == (v.held.contains(b) || b == usage));
        }
    }
    let n = v.order.len() as int;
    assert(p.order[n] == usage);
    assert(p.order.index_of(usage) == n) by {
        let k = p.order.index_of(usage);
        assert(p.order[k] == usage);
        if k < n {
            assert(v.order[k] == usage);
        }
    }
    assert(p.order.remove(n) =~= v.order);
}

/// A modifier going down and up again leaves the other modifiers as they were and clears its own
/// bit; the held keys do not change.
pub proof fn law_modifier_bits(v: KeyboardView, keycode: u32, mask: u8)
    requires
        modifier_mask(keycode) == Some(mask),
    ensures
        v.after(AndroidKeyEventAction::Down, keycode).modifiers & mask == mask,
        v.after(AndroidKeyEventAction::Down, keycode).after(
            AndroidKeyEventAction::Up,
            keycode,
        ).modifiers == v.modifiers & !mask,
        v.after(AndroidKeyEventAction::Down, keycode).held == v.held,
        v.after(AndroidKeyEventAction::Up, keycode).held == v.held,
{
    let m = v.modifiers;
    assert((m | mask) & mask == mask) by (bit_vector);
    assert((m | mask) & !mask == m & !mask) by (bit_vector);
}

/// With six keys held, a seventh takes the place of the one that was pressed first, whatever was
/// let go before. The other five stay held, and the new one is the last of the order.
pub proof fn law_oldest_gives_way(v: KeyboardView, next: u8)
    requires
        v.valid(),
        v.held.len() == 6,
        next != 0,
        !v.held.contains(next),
    ensures
        v.pressed(next).held.to_set() == v.held.to_set().remove(v.order[0]).insert(next),
        v.pressed(next).order == v.order.drop_first().push(next),
        v.pressed(next).held.last() == next,
{
    lemma_oldest(v);
    lemma_without(v.held, v.order[0]);
    lemma_push(without(v.held, v.order[0]), next);
    let p = v.pressed(next);
    assert forall|b: u8| p.held.to_set().contains(b) <==> v.held.to_set().remove(
        v.order[0],
    ).insert(next).contains(b) by {
        assert(p.held.contains(b) == (without(v.held, v.order[0]).contains(b) || b == next));
    }
    assert(p.held.to_set() =~= v.held.to_set().remove(v.order[0]).insert(next));
}

/// Keys that are pressed one after the other, none of them let go, stand in the report in that
/// order.
pub proof fn law_pressed_in_order(usages: Seq<u8>)
    requires
        usages.len() <= 6,
        usages.no_duplicates(),
        !usages.contains(0u8),
    ensures
        press_all(usages).held == usages,
        press_all(usages).order == usages,
    decreases usages.len(),
{
    if usages.len() > 0 {
        let init = usages.drop_last();
        assert forall|b: u8| init.contains(b) implies usages.contains(b) by {
            let i = choose|i: int| 0 <= i < init.len() && init[i] == b;
            assert(usages[i] == b);
        }
        law_pressed_in_order(init);
        assert(!init.contains(usages.last()));
        assert(init.push(usages.last()) =~= usages);
    }
}

/// The state after keys were pressed in order, none of them let go.
pub open spec fn press_all(usages: Seq<u8>) -> KeyboardView
    decreases usages.len(),
{
    if usages.len() == 0 {
        KeyboardView::released()
    } else {
        press_all(usages.drop_last()).pressed(usages.last())
    }
}

/// The keys that the virtual keyboard has beside modifiers: the letters A to Z, the digits, the
/// function keys, the arrows, and the usual control and punctuation keys.
pub open spec fn is_typing_key(keycode: u32) -> bool {
    ||| 7 <= keycode <= 16
    ||| 19 <= keycode <= 22
    ||| 29 <= keycode <= 56
    ||| 61 <= keycode <= 62
    ||| 66 <= keycode <= 76
    ||| keycode == 111
    ||| 131 <= keycode <= 142
}

/// The usages of letters, digits and function keys run in the order of the keys, and the others are
/// those of the HID usage table. No other key code has a usage.
pub proof fn law_key_usage_table(keycode: u32)
    ensures
        key_usage(keycode) is Some <==> is_typing_key(keycode),
        // A to Z
        key_usage(29) == Some(4u8),
        key_usage(54) == Some(29u8),
        29 <= keycode < 54 ==> key_usage((keycode + 1) as u32)->Some_0 == key_usage(keycode)->Some_0
            + 1,
        // 1 to 9, then 0
        key_usage(8) == Some(30u8),
        key_usage(16) == Some(38u8),
        8 <= keycode < 16 ==> key_usage((keycode + 1) as u32)->Some_0 == key_usage(keycode)->Some_0
            + 1,
        key_usage(7) == Some(39u8),
        // enter, escape, backspace, tab, space
        key_usage(66) == Some(40u8),
        key_usage(111) == Some(41u8),
        key_usage(67) == Some(42u8),
        key_usage(61) == Some(43u8),
        key_usage(62) == Some(44u8),
        // minus, equals, brackets, backslash, semicolon, apostrophe
        key_usage(69) == Some(45u8),
        key_usage(70) == Some(46u8),
        key_usage(71) == Some(47u8),
        key_usage(72) == Some(48u8),
        key_usage(73) == Some(49u8),
        key_usage(74) == Some(51u8),
        key_usage(75) == Some(52u8),
        // grave, comma, period, slash
        key_usage(68) == Some(53u8),
        key_usage(55) == Some(54u8),
        key_usage(56) == Some(55u8),
        key_usage(76) == Some(56u8),
        // F1 to F12
        key_usage(131) == Some(58u8),
        key_usage(142) == Some(69u8),
        131 <= keycode < 142 ==> key_usage((keycode + 1) as u32)->Some_0 == key_usage(
            keycode,
        )->Some_0 + 1,
        // right, left, down, up
        key_usage(22) == Some(79u8),
        key_usage(21) == Some(80u8),
        key_usage(20) == Some(81u8),
        key_usage(19) == Some(82u8),
{
}

/// Different keys have different usages, and none of them is the empty usage. No key is a modifier
/// as well.
pub proof fn law_key_usages_differ(a: u32, b: u32)
    requires
        is_typing_key(a),
        is_typing_key(b),
        a != b,
    ensures
        key_usage(a) != key_usage(b),
        key_usage(a) != Some(0u8),
        modifier_mask(a) is None,
{
}

/// Each modifier key has one bit: control, shift, alt and meta on the left hold the four lower bits
/// in that order, and on the right the four higher ones. No other key has one.
pub proof fn law_modifier_table(keycode: u32)
    ensures
        modifier_mask(113) == Some(1u8),
        modifier_mask(59) == Some(2u8),
        modifier_mask(57) == Some(4u8),
        modifier_mask(117) == Some(8u8),
        modifier_mask(114) == Some(16u8),
        modifier_mask(60) == Some(32u8),
        modifier_mask(58) == Some(64u8),
        modifier_mask(118) == Some(128u8),
        modifier_mask(keycode) is Some <==> (57 <= keycode <= 60 || 113 <= keycode <= 114 || 117
            <= keycode <= 118),
{
}

/// A key that the keyboard does not have changes nothing.
pub proof fn law_unknown_key_does_nothing(
    v: KeyboardView,
    action: AndroidKeyEventAction,
    keycode: u32,
)
    requires
        !is_typing_key(keycode),
        !(57 <= keycode <= 60 || 113 <= keycode <= 114 || 117 <= keycode <= 118),
    ensures
        v.after(action, keycode) == v,
        !is_supported(keycode),
{
    law_key_usage_table(keycode);
    law_modifier_table(keycode);
}

/// A key that goes down is held afterwards, and every key that was held still is, but for the
/// oldest of six. One that goes up is not held afterwards, every other that was held still is, and
/// no key comes to be held. The modifiers stay.
pub proof fn law_key_goes_down_and_up(v: KeyboardView, keycode: u32, other: u8)
    requires
        v.valid(),
        is_typing_key(keycode),
        other != key_usage(keycode)->Some_0,
    ensures
        ({
            let usage = key_usage(keycode)->Some_0;
            let down = v.after(AndroidKeyEventAction::Down, keycode);
            let up = v.after(AndroidKeyEventAction::Up, keycode);
            &&& down.held.contains(usage)
            &&& down.held.contains(other) <==> v.held.contains(other) && !(v.held.len() == 6
                && !v.held.contains(usage) && v.order[0] == other)
            &&& !up.held.contains(usage)
            &&& up.held.contains(other) <==> v.held.contains(other)
            &&& down.modifiers == v.modifiers
            &&& up.modifiers == v.modifiers
        }),
{
    law_key_usage_table(keycode);
    law_modifier_table(keycode);
    let usage = key_usage(keycode)->Some_0;
    lemma_let_go_valid(v, usage);
    if v.held.contains(usage) {
        assert(v.let_go(usage).held.to_set().contains(usage) == v.held.to_set().remove(
            usage,
        ).contains(usage));
        assert(v.let_go(usage).held.to_set().contains(other) == v.held.to_set().remove(
            usage,
        ).contains(other));
    } else if v.held.len() < 6 {
        lemma_push(v.held, usage);
        assert(v.held.push(usage).contains(usage) && (v.held.push(usage).contains(other)
            == v.held.contains(other)));
    } else {
        lemma_oldest(v);
        lemma_without(v.held, v.order[0]);
        let rest = without(v.held, v.order[0]);
        assert(rest.contains(usage) == (v.held.contains(usage) && usage != v.order[0]));
        lemma_push(rest, usage);
        assert(rest.push(usage).contains(usage) && (rest.push(usage).contains(other) == (
        rest.contains(other))));
        assert(rest.contains(other) == (v.held.contains(other) && other != v.order[0]));
    }
}

/// After a key was let go the others stand in ascending order, and their order of pressing is the
/// same as before without that key.
pub proof fn law_let_go_sorts(v: KeyboardView, usage: u8)
    requires
        v.valid(),
        v.held.contains(usage),
    ensures
        forall|i: int, j: int|
            0 <= i < j < v.let_go(usage).held.len() ==> v.let_go(usage).held[i] < v.let_go(
                usage,
            ).held[j],
        v.let_go(usage).held.len() == v.held.len() - 1,
        exists|i: int|
            0 <= i < v.order.len() && #[trigger] v.order[i] == usage && v.let_go(usage).order
                == v.order.take(i) + v.order.skip(i + 1),
{
    lemma_ascending(v.held.to_set().remove(usage), 0);
    lemma_let_go_valid(v, usage);
    assert(v.order.contains(usage));
    lemma_without(v.order, usage);
    let i = v.order.index_of(usage);
    assert(v.order[i] == usage);
    assert(v.order.remove(i) =~= v.order.take(i) + v.order.skip(i + 1));
}

/// A report has eight bytes: the modifiers, an empty byte, and the held keys with empty bytes behind
/// them. So the keys that are held can be read off it.
pub proof fn law_report_layout(v: KeyboardView, usage: u8)
    requires
        v.valid(),
        usage != 0,
    ensures
        v.report().len() == 8,
        v.report()[0] == v.modifiers,
        v.report()[1] == 0,
        forall|i: int| 0 <= i < v.held.len() ==> #[trigger] v.report()[2 + i] == v.held[i],
        forall|i: int| v.held.len() <= i < 6 ==> #[trigger] v.report()[2 + i] == 0,
        v.held.contains(usage) <==> v.report().skip(2).contains(usage),
{
    let keys = v.report().skip(2);
    if v.held.contains(usage) {
        let i = choose|i: int| 0 <= i < v.held.len() && v.held[i] == usage;
        assert(keys[i] == usage);
    }
    if keys.contains(usage) {
        let i = choose|i: int| 0 <= i < keys.len() && keys[i] == usage;
        assert(v.held[i] == usage);
    }
}

/// A modifier that goes down sets its bit and no other; one that goes up clears its bit and no
/// other.
pub proof fn law_modifier_changes_its_bit(v: KeyboardView, keycode: u32, mask: u8)
    requires
        modifier_mask(keycode) == Some(mask),
    ensures
        v.after(AndroidKeyEventAction::Down, keycode).modifiers & mask == mask,
        v.after(AndroidKeyEventAction::Down, keycode).modifiers & !mask == v.modifiers & !mask,
        v.after(AndroidKeyEventAction::Up, keycode).modifiers & mask == 0,
        v.after(AndroidKeyEventAction::Up, keycode).modifiers & !mask == v.modifiers & !mask,
        v.after(AndroidKeyEventAction::Down, keycode).order == v.order,
        v.after(AndroidKeyEventAction::Up, keycode).order == v.order,
{
    let m = v.modifiers;
    assert((m | mask) & mask == mask && (m | mask) & !mask == m & !mask && (m & !mask) & mask == 0
        && (m & !mask) & !mask == m & !mask) by (bit_vector);
}

/// A key code has a usage or a modifier bit exactly when the keyboard supports it, and never both.
pub proof fn law_supported_keys(
    keycode: u32,
    usage: Option<u8>,
    mask: Option<u8>,
    supported: bool,
)
    requires
        call_ensures(android_keycode_to_hid_usage, (keycode,), usage),
        call_ensures(android_modifier_keycode_to_mask, (keycode,), mask),
        call_ensures(supports_android_keycode, (keycode,), supported),
    ensures
        supported <==> usage is Some || mask is Some,
        !(usage is Some && mask is Some),
        usage is Some <==> is_typing_key(keycode),
        29 <= keycode <= 54 ==> usage == Some((keycode - 25) as u8),
        8 <= keycode <= 16 ==> usage == Some((keycode + 22) as u8),
        131 <= keycode <= 142 ==> usage == Some((keycode - 73) as u8),
{
    law_key_usage_table(keycode);
    law_modifier_table(keycode);
}

/// With all keys up, no modifier is set and no key is held.
pub proof fn law_all_keys_up()
    ensures
        KeyboardView::released().modifiers == 0,
        KeyboardView::released().held.len() == 0,
        KeyboardView::released().order.len() == 0,
        KeyboardView::released().valid(),
{
}

} // verus!
