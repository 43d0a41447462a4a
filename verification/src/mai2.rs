//! The maimai runtime's state: what each player's board reports (the input
//! page), what the game asks the boards to show (the output page), and what a
//! poll hands the game (the poll page).
use vstd::prelude::*;

verus! {

/// Vendor id of Affine devices.
pub const AFFINE_VID: u16 = 0xAFF1;
/// Product id of the player 1 board.
pub const MAI2_PID_1P: u16 = 0x52A5;
/// Product id of the player 2 board.
pub const MAI2_PID_2P: u16 = 0x52A6;

pub const MAI2_IO_OPBTN_TEST: u8 = 0x01;
pub const MAI2_IO_OPBTN_SERVICE: u8 = 0x02;
pub const MAI2_IO_OPBTN_COIN: u8 = 0x04;
pub const MAI2_IO_GAMEBTN_SELECT: u16 = 0x100;

/// Virtual-key code of F1, the default test key.
pub const VK_F1: u16 = 0x70;
/// Virtual-key code of F2, the default service key.
pub const VK_F2: u16 = 0x71;
/// Virtual-key code of F3, the default coin key.
pub const VK_F3: u16 = 0x72;

/// What a player's board reports: the eight game buttons, the extra status
/// bits (select, test, service, coin), whether a source is connected, the
/// touch bits, and a counter of updates.
#[derive(Clone, Copy)]
pub struct Mai2InputPage {
    pub buttons0: u8,
    pub io_status: u8,
    pub connected: u8,
    pub touch: [u8; 7],
    pub sequence: u64,
}

impl Mai2InputPage {
    /// The page of a board with nothing connected.
    pub fn new() -> (p: Self)
        ensures
            p == Mai2InputPage::zero(),
    {
        let p = Mai2InputPage { buttons0: 0, io_status: 0, connected: 0, touch: [0u8; 7], sequence: 0 };
        assert(p.touch =~= [0u8, 0, 0, 0, 0, 0, 0]);
        p
    }

    /// The page of a board with nothing connected.
    pub open spec fn zero() -> Mai2InputPage {
        Mai2InputPage { buttons0: 0, io_status: 0, connected: 0, touch: [0u8, 0, 0, 0, 0, 0, 0], sequence: 0 }
    }
}

/// What the game asks a player's board to show: whether touch is enabled,
/// the button LED fades (eight times start colour, target colour, speed),
/// the billboard colours, the cabinet light levels, each with a counter of
/// changes.
#[derive(Clone, Copy)]
pub struct Mai2OutputPage {
    pub touch_enabled: u8,
    pub buttons_sequence: u64,
    pub buttons: [u8; 56],
    pub billboard_sequence: u64,
    pub billboard: [u8; 24],
    pub pwm_sequence: u64,
    pub pwm: [u8; 3],
}

/// What a poll hands the game: the operator buttons, each player's game
/// buttons, whether the coin was down at the last poll, and a counter of
/// polls.
#[derive(Clone, Copy)]
pub struct Mai2PollPage {
    pub opbtn: u8,
    pub player1_btn: u16,
    pub player2_btn: u16,
    pub affine_coin: u8,
    pub sequence: u64,
}

/// The state of the keyboard fallback keys at a poll.
#[derive(Clone, Copy)]
pub struct KeyState {
    pub test: bool,
    pub service: bool,
    pub coin: bool,
}

/// The virtual keys of the keyboard fallback.
#[derive(Clone, Copy)]
pub struct KeyboardConfig {
    pub vk_test: u16,
    pub vk_service: u16,
    pub vk_coin: u16,
}

impl KeyboardConfig {
    /// F1 for test, F2 for service, F3 for coin.
    pub fn new() -> (k: Self)
        ensures
            k.vk_test == VK_F1 && k.vk_service == VK_F2 && k.vk_coin == VK_F3,
    {
        KeyboardConfig { vk_test: VK_F1, vk_service: VK_F2, vk_coin: VK_F3 }
    }

    /// The keys read from the configuration, each kept to its low sixteen
    /// bits.
    pub fn from_config(test: u32, service: u32, coin: u32) -> (k: Self)
        ensures
            k.vk_test == test as u16 && k.vk_service == service as u16 && k.vk_coin == coin as u16,
    {
        KeyboardConfig {
            vk_test: #[verifier::truncate] (test as u16),
            vk_service: #[verifier::truncate] (service as u16),
            vk_coin: #[verifier::truncate] (coin as u16),
        }
    }
}

/// The game-button word of a player: the eight game buttons as they are,
/// and the select button from bit 0 of the status bits.
pub open spec fn game_buttons(buttons0: u8, buttons1: u8) -> u16 {
    (buttons0 as int + if buttons1 & 0x01 != 0 { 0x100int } else { 0 }) as u16
}

/// Maps a board's buttons and status bits to the game-button word; see
/// `game_buttons`.
pub fn map_buttons(buttons0: u8, buttons1: u8) -> (out: u16)
    ensures
        out == game_buttons(buttons0, buttons1),
{
    let select: u16 = if buttons1 & 0x01 != 0 { MAI2_IO_GAMEBTN_SELECT } else { 0 };
    buttons0 as u16 + select
}

/// Whether `page` is connected and has status bit `mask` set.
pub open spec fn status_bit(page: Mai2InputPage, mask: u8) -> bool {
    page.connected != 0 && page.io_status & mask != 0
}

/// Whether the coin is down: player 1's coin bit, or the coin key.
pub open spec fn coin_down(p1: Mai2InputPage, keys: KeyState) -> bool {
    status_bit(p1, 0x08) || keys.coin
}

/// The poll page after a poll: test and service from either board or the
/// keys; coin only on the poll where it goes down (player 1's board or the
/// key), so that a held coin counts once; each connected player's game
/// buttons.
pub open spec fn poll_next(poll: Mai2PollPage, p1: Mai2InputPage, p2: Mai2InputPage, keys: KeyState) -> Mai2PollPage {
    let test = status_bit(p1, 0x02) || status_bit(p2, 0x02) || keys.test;
    let service = status_bit(p1, 0x04) || status_bit(p2, 0x04) || keys.service;
    let coin = coin_down(p1, keys);
    let coin_edge = coin && poll.affine_coin == 0;
    Mai2PollPage {
        opbtn: ((if test { 1int } else { 0 }) + (if service { 2int } else { 0 }) + (if coin_edge { 4int } else { 0 })) as u8,
        player1_btn: if p1.connected != 0 { game_buttons(p1.buttons0, p1.io_status) } else { 0 },
        player2_btn: if p2.connected != 0 { game_buttons(p2.buttons0, p2.io_status) } else { 0 },
        affine_coin: if coin { if poll.affine_coin == 0 { 1 } else { poll.affine_coin } } else { 0 },
        sequence: vstd::wrapping::u64_specs::wrapping_add(poll.sequence, 1),
    }
}

/// Updates the poll page from both players' input pages and the keyboard
/// fallback; see `poll_next`.
pub fn poll_update(poll: &mut Mai2PollPage, p1: &Mai2InputPage, p2: &Mai2InputPage, keys: KeyState)
    ensures
        *final(poll) == poll_next(*old(poll), *p1, *p2, keys),
{
    let test = (p1.connected != 0 && p1.io_status & 0x02 != 0) || (p2.connected != 0 && p2.io_status & 0x02 != 0)
        || keys.test;
    let service = (p1.connected != 0 && p1.io_status & 0x04 != 0) || (p2.connected != 0 && p2.io_status & 0x04 != 0)
        || keys.service;
    let coin_pressed = (p1.connected != 0 && p1.io_status & 0x08 != 0) || keys.coin;
    let mut opbtn: u8 = 0;
    if test {
        opbtn = opbtn + MAI2_IO_OPBTN_TEST;
    }
    if service {
        opbtn = opbtn + MAI2_IO_OPBTN_SERVICE;
    }
    if coin_pressed {
        if poll.affine_coin == 0 {
            poll.affine_coin = 1;
            opbtn = opbtn + MAI2_IO_OPBTN_COIN;
        }
    } else {
        poll.affine_coin = 0;
    }
    poll.opbtn = opbtn;
    poll.player1_btn = if p1.connected != 0 { map_buttons(p1.buttons0, p1.io_status) } else { 0 };
    poll.player2_btn = if p2.connected != 0 { map_buttons(p2.buttons0, p2.io_status) } else { 0 };
    poll.sequence = poll.sequence.wrapping_add(1);
}

/// The coin counts once per press: a coin that goes down sets the coin
/// button for that poll, and while it stays down the next poll does not set
/// it again.
pub proof fn coin_counts_once(
    poll: Mai2PollPage,
    p1: Mai2InputPage,
    p2: Mai2InputPage,
    keys: KeyState,
    q1: Mai2InputPage,
    q2: Mai2InputPage,
    keys2: KeyState,
)
    requires
        poll.affine_coin == 0,
        coin_down(p1, keys),
        coin_down(q1, keys2),
    ensures
        poll_next(poll, p1, p2, keys).opbtn & MAI2_IO_OPBTN_COIN != 0,
        poll_next(poll_next(poll, p1, p2, keys), q1, q2, keys2).opbtn & MAI2_IO_OPBTN_COIN == 0,
{
    let a = poll_next(poll, p1, p2, keys).opbtn;
    let b = poll_next(poll_next(poll, p1, p2, keys), q1, q2, keys2).opbtn;
    assert(a == 4 || a == 5 || a == 6 || a == 7);
    assert(b == 0 || b == 1 || b == 2 || b == 3);
    assert((a == 4 || a == 5 || a == 6 || a == 7) ==> a & 4 != 0) by (bit_vector);
    assert((b == 0 || b == 1 || b == 2 || b == 3) ==> b & 4 == 0) by (bit_vector);
}

/// Once the coin is released, the next press counts again.
pub proof fn coin_counts_after_release(
    poll: Mai2PollPage,
    p1: Mai2InputPage,
    p2: Mai2InputPage,
    keys: KeyState,
    q1: Mai2InputPage,
    q2: Mai2InputPage,
    keys2: KeyState,
)
    requires
        !coin_down(p1, keys),
        coin_down(q1, keys2),
    ensures
        poll_next(poll_next(poll, p1, p2, keys), q1, q2, keys2).opbtn & MAI2_IO_OPBTN_COIN != 0,
{
    let b = poll_next(poll_next(poll, p1, p2, keys), q1, q2, keys2).opbtn;
    assert(b == 4 || b == 5 || b == 6 || b == 7);
    assert((b == 4 || b == 5 || b == 6 || b == 7) ==> b & 4 != 0) by (bit_vector);
}


/// One coin pulse per rising edge, however long the coin is held: when the
/// poll page remembers whether the coin was down at the previous poll
/// (`was_down`; a fresh page, with `affine_coin` 0, remembers it up), the
/// coin button is set exactly when the coin is down now and was not before,
/// and the page then remembers whether it is down now. Player 2's coin bit
/// is not read.
pub proof fn coin_pulse_on_rising_edge(
    poll: Mai2PollPage,
    p1: Mai2InputPage,
    p2: Mai2InputPage,
    keys: KeyState,
    was_down: bool,
)
    requires
        (poll.affine_coin != 0) == was_down,
    ensures
        (poll_next(poll, p1, p2, keys).opbtn & MAI2_IO_OPBTN_COIN != 0) == (coin_down(p1, keys) && !was_down),
        (poll_next(poll, p1, p2, keys).affine_coin != 0) == coin_down(p1, keys),
{
    let a = poll_next(poll, p1, p2, keys).opbtn;
    if coin_down(p1, keys) && !was_down {
        assert(a == 4 || a == 5 || a == 6 || a == 7);
        assert((a == 4 || a == 5 || a == 6 || a == 7) ==> a & 4 != 0) by (bit_vector);
    } else {
        assert(a == 0 || a == 1 || a == 2 || a == 3);
        assert((a == 0 || a == 1 || a == 2 || a == 3) ==> a & 4 == 0) by (bit_vector);
    }
}

/// The poll page after the first `k` polls of `inputs` (player 1's page,
/// player 2's page, the keys at each poll), starting from `poll`.
pub open spec fn poll_after(poll: Mai2PollPage, inputs: Seq<(Mai2InputPage, Mai2InputPage, KeyState)>, k: nat) -> Mai2PollPage
    decreases k,
{
    if k == 0 || k > inputs.len() {
        poll
    } else {
        let i = inputs[k - 1];
        poll_next(poll_after(poll, inputs, (k - 1) as nat), i.0, i.1, i.2)
    }
}

/// Whether the coin is down at poll `k` (counting from 1) of `inputs`: player
/// 1's board is connected with its coin bit (0x08) set, or the coin key is
/// down (player 2's coin bit is not read); up before the first poll.
pub open spec fn coin_down_at(inputs: Seq<(Mai2InputPage, Mai2InputPage, KeyState)>, k: int) -> bool {
    1 <= k <= inputs.len() && ((inputs[k - 1].0.connected != 0 && inputs[k - 1].0.io_status & 0x08 != 0)
        || inputs[k - 1].2.coin)
}

proof fn lemma_coin_memory(poll: Mai2PollPage, inputs: Seq<(Mai2InputPage, Mai2InputPage, KeyState)>, k: nat)
    requires
        poll.affine_coin == 0,
        k <= inputs.len(),
    ensures
        (poll_after(poll, inputs, k).affine_coin != 0) == coin_down_at(inputs, k as int),
        k >= 1 ==> (poll_after(poll, inputs, k).opbtn & MAI2_IO_OPBTN_COIN != 0) == (coin_down_at(inputs, k as int)
            && !coin_down_at(inputs, k - 1)),
    decreases k,
{
    if k >= 1 {
        lemma_coin_memory(poll, inputs, (k - 1) as nat);
        let i = inputs[k - 1];
        coin_pulse_on_rising_edge(poll_after(poll, inputs, (k - 1) as nat), i.0, i.1, i.2, coin_down_at(inputs, k - 1));
    }
}

/// Over any run of polls from a fresh poll page, the coin button is set at
/// poll `k` exactly when the coin is down at poll `k` and was not at poll
/// `k - 1`: one pulse per press, however long the coin is held.
pub proof fn coin_one_pulse_per_press(poll: Mai2PollPage, inputs: Seq<(Mai2InputPage, Mai2InputPage, KeyState)>, k: nat)
    requires
        poll.affine_coin == 0,
        1 <= k <= inputs.len(),
    ensures
        (poll_after(poll, inputs, k).opbtn & MAI2_IO_OPBTN_COIN != 0) == (coin_down_at(inputs, k as int)
            && !coin_down_at(inputs, k - 1)),
{
    lemma_coin_memory(poll, inputs, k);
}

proof fn lemma_low_bits(a: u8)
    by (bit_vector)
    requires
        a < 8,
    ensures
        (a & 1 != 0) == (a % 2 == 1),
        (a & 2 != 0) == ((a / 2) % 2 == 1),
        (a & 4 != 0) == (a >= 4),
{
}

proof fn lemma_button_word(b: u8, r: u16, select: bool)
    by (bit_vector)
    requires
        select ==> r == b as u16 + 0x100,
        !select ==> r == b as u16,
    ensures
        r & 0xFF == b as u16,
        (r & 0x100 != 0) == select,
        r < 0x200,
{
}

proof fn lemma_status_bit(s: u8)
    by (bit_vector)
    ensures
        (s & 0x01 != 0) == (s % 2 == 1),
{
}

/// The operator buttons a poll reports: test is set exactly when a connected
/// board (player 1's or player 2's) has its test bit (0x02) set or the test
/// key is down; service likewise with the service bit (0x04) and key; and no
/// bit other than test, service and coin is ever set.
pub proof fn operator_buttons_from_either_board(
    poll: Mai2PollPage,
    p1: Mai2InputPage,
    p2: Mai2InputPage,
    keys: KeyState,
)
    ensures
        ({
            let op = poll_next(poll, p1, p2, keys).opbtn;
            &&& (op & MAI2_IO_OPBTN_TEST != 0) == ((p1.connected != 0 && p1.io_status & 0x02 != 0) || (p2.connected
                != 0 && p2.io_status & 0x02 != 0) || keys.test)
            &&& (op & MAI2_IO_OPBTN_SERVICE != 0) == ((p1.connected != 0 && p1.io_status & 0x04 != 0) || (
            p2.connected != 0 && p2.io_status & 0x04 != 0) || keys.service)
            &&& op < 8
        }),
{
    let op = poll_next(poll, p1, p2, keys).opbtn;
    assert(op < 8);
    lemma_low_bits(op);
}

/// The game-button words a poll reports: for each player whose board is
/// connected, the low byte is that board's eight game buttons and bit 0x100
/// (select) is set exactly when bit 0 of that same board's status bits is
/// set, with no other bit; a player whose board is not connected reports no
/// buttons.
pub proof fn game_buttons_per_player(poll: Mai2PollPage, p1: Mai2InputPage, p2: Mai2InputPage, keys: KeyState)
    ensures
        ({
            let q = poll_next(poll, p1, p2, keys);
            &&& p1.connected != 0 ==> q.player1_btn & 0xFF == p1.buttons0 as u16 && (q.player1_btn
                & MAI2_IO_GAMEBTN_SELECT != 0) == (p1.io_status & 0x01 != 0) && q.player1_btn < 0x200
            &&& p2.connected != 0 ==> q.player2_btn & 0xFF == p2.buttons0 as u16 && (q.player2_btn
                & MAI2_IO_GAMEBTN_SELECT != 0) == (p2.io_status & 0x01 != 0) && q.player2_btn < 0x200
            &&& p1.connected == 0 ==> q.player1_btn == 0
            &&& p2.connected == 0 ==> q.player2_btn == 0
            &&& q.sequence as int == (poll.sequence as int + 1) % 0x1_0000_0000_0000_0000
        }),
{
    let q = poll_next(poll, p1, p2, keys);
    lemma_status_bit(p1.io_status);
    lemma_status_bit(p2.io_status);
    if p1.connected != 0 {
        lemma_button_word(p1.buttons0, q.player1_btn, p1.io_status & 0x01 != 0);
    }
    if p2.connected != 0 {
        lemma_button_word(p2.buttons0, q.player2_btn, p2.io_status & 0x01 != 0);
    }
}

/// Whether `a` and `b` hold the same bytes.
pub fn same_bytes(a: &[u8], b: &[u8]) -> (same: bool)
    ensures
        same == (a@ == b@),
{
    if a.len() != b.len() {
        return false;
    }
    let mut i: usize = 0;
    while i < a.len()
        invariant
            i <= a@.len(),
            a@.len() == b@.len(),
            forall|j: int| 0 <= j < i ==> a@[j] == b@[j],
        decreases a@.len() - i,
    {
        if a[i] != b[i] {
            return false;
        }
        i = i + 1;
    }
    assert(a@ =~= b@);
    true
}

/// The board that an LED request with `len` bytes of colour data is for:
/// boards 0 and 1 exist, and the request needs at least `min_len` bytes.
pub fn led_board(board: u8, len: usize, min_len: usize) -> (b: Option<usize>)
    ensures
        b == if board <= 1 && len >= min_len { Some(board as usize) } else { None::<usize> },
{
    if board > 1 || len < min_len {
        None
    } else {
        Some(board as usize)
    }
}

/// The button LED fades for a `led_gs_update` request `rgb` (eight times red,
/// green, blue, speed), given the target colours of the previous request in
/// `latch`: each button fades from the previous target to the new one at the
/// given speed, or jumps to the new one when the speed is 0.
pub open spec fn gs_payload(latch: Seq<u8>, rgb: Seq<u8>) -> Seq<u8> {
    Seq::new(56, |k: int| {
        let i = k / 7;
        let j = k % 7;
        if j < 3 {
            if rgb[4 * i + 3] == 0 { rgb[4 * i + j] } else { latch[3 * i + j] }
        } else if j < 6 {
            rgb[4 * i + j - 3]
        } else {
            rgb[4 * i + 3]
        }
    })
}

/// The target colours of a `led_gs_update` request: eight times red, green,
/// blue.
pub open spec fn gs_targets(rgb: Seq<u8>) -> Seq<u8> {
    Seq::new(24, |k: int| rgb[4 * (k / 3) + k % 3])
}

/// The target colours of the button LED fades `buttons`.
pub open spec fn rgb_of_buttons(buttons: Seq<u8>) -> Seq<u8> {
    Seq::new(24, |k: int| buttons[7 * (k / 3) + 3 + k % 3])
}

/// Builds the button LED fades for `rgb`; see `gs_payload`. `latch` ends up
/// holding the request's target colours.
pub fn led_gs_payload(latch: &mut [u8; 24], rgb: &[u8]) -> (payload: [u8; 56])
    requires
        rgb@.len() >= 32,
    ensures
        payload@ == gs_payload(old(latch)@, rgb@),
        final(latch)@ == gs_targets(rgb@),
{
    let ghost l0 = latch@;
    let mut payload = [0u8; 56];
    let mut i: usize = 0;
    while i < 8
        invariant
            i <= 8,
            rgb@.len() >= 32,
            l0.len() == 24,
            forall|k: int| 0 <= k < 7 * i ==> payload@[k] == gs_payload(l0, rgb@)[k],
            forall|k: int| 0 <= k < 3 * i ==> latch@[k] == gs_targets(rgb@)[k],
            forall|k: int| 3 * i <= k < 24 ==> latch@[k] == l0[k],
        decreases 8 - i,
    {
        let speed = rgb[4 * i + 3];
        let t0 = rgb[4 * i];
        let t1 = rgb[4 * i + 1];
        let t2 = rgb[4 * i + 2];
        let (s0, s1, s2) = if speed == 0 {
            (t0, t1, t2)
        } else {
            (latch[3 * i], latch[3 * i + 1], latch[3 * i + 2])
        };
        payload[7 * i] = s0;
        payload[7 * i + 1] = s1;
        payload[7 * i + 2] = s2;
        payload[7 * i + 3] = t0;
        payload[7 * i + 4] = t1;
        payload[7 * i + 5] = t2;
        payload[7 * i + 6] = speed;
        latch[3 * i] = t0;
        latch[3 * i + 1] = t1;
        latch[3 * i + 2] = t2;
        proof {
            assert forall|k: int| 7 * i <= k < 7 * i + 7 implies payload@[k] == gs_payload(l0, rgb@)[k] by {
                assert(k / 7 == i as int && k % 7 == k - 7 * i) by (nonlinear_arith)
                    requires 7 * i <= k < 7 * i + 7;
            }
            assert forall|k: int| 3 * i <= k < 3 * i + 3 implies latch@[k] == gs_targets(rgb@)[k] by {
                assert(k / 3 == i as int && k % 3 == k - 3 * i) by (nonlinear_arith)
                    requires 3 * i <= k < 3 * i + 3;
            }
        }
        i = i + 1;
    }
    assert(payload@ =~= gs_payload(l0, rgb@));
    assert(latch@ =~= gs_targets(rgb@));
    payload
}

/// The colours that the serial link sends for the button LEDs: the target
/// colour of each fade.
pub fn button_rgb_payload(buttons: &[u8; 56]) -> (payload: [u8; 24])
    ensures
        payload@ == rgb_of_buttons(buttons@),
{
    let mut payload = [0u8; 24];
    let mut index: usize = 0;
    while index < 8
        invariant
            index <= 8,
            forall|k: int| 0 <= k < 3 * index ==> payload@[k] == rgb_of_buttons(buttons@)[k],
        decreases 8 - index,
    {
        payload[index * 3] = buttons[index * 7 + 3];
        payload[index * 3 + 1] = buttons[index * 7 + 4];
        payload[index * 3 + 2] = buttons[index * 7 + 5];
        proof {
            assert forall|k: int| 3 * index <= k < 3 * index + 3 implies payload@[k] == rgb_of_buttons(buttons@)[k] by {
                assert(k / 3 == index as int && k % 3 == k - 3 * index) by (nonlinear_arith)
                    requires 3 * index <= k < 3 * index + 3;
            }
        }
        index = index + 1;
    }
    assert(payload@ =~= rgb_of_buttons(buttons@));
    payload
}

/// The serial link shows the colours the game asked for: the colours sent
/// for the buttons are the targets of the last `led_gs_update` request,
/// whatever the fades started from.
pub proof fn button_leds_show_requested_colours(latch: Seq<u8>, rgb: Seq<u8>)
    requires
        latch.len() == 24,
        rgb.len() >= 32,
    ensures
        rgb_of_buttons(gs_payload(latch, rgb)) == gs_targets(rgb),
{
    assert forall|k: int| 0 <= k < 24 implies #[trigger] rgb_of_buttons(gs_payload(latch, rgb))[k] == gs_targets(rgb)[k] by {
        let i = k / 3;
        let j = k % 3;
        assert(0 <= i < 8 && 0 <= j < 3 && k == 3 * i + j) by (nonlinear_arith)
            requires 0 <= k < 24, i == k / 3, j == k % 3;
        let m = 7 * i + 3 + j;
        assert(m / 7 == i && m % 7 == 3 + j) by (nonlinear_arith)
            requires m == 7 * i + 3 + j, 0 <= j < 3, 0 <= i;
    }
    assert(rgb_of_buttons(gs_payload(latch, rgb)) =~= gs_targets(rgb));
}

/// The billboard colours for a `led_billboard_set` request: its first colour
/// on all eight lamps.
pub open spec fn billboard_of(rgb: Seq<u8>) -> Seq<u8> {
    Seq::new(24, |k: int| rgb[k % 3])
}

/// Builds the billboard colours for `rgb`; see `billboard_of`.
pub fn billboard_payload(rgb: &[u8]) -> (payload: [u8; 24])
    requires
        rgb@.len() >= 3,
    ensures
        payload@ == billboard_of(rgb@),
{
    let mut payload = [0u8; 24];
    let mut i: usize = 0;
    while i < 8
        invariant
            i <= 8,
            rgb@.len() >= 3,
            forall|k: int| 0 <= k < 3 * i ==> payload@[k] == billboard_of(rgb@)[k],
        decreases 8 - i,
    {
        payload[3 * i] = rgb[0];
        payload[3 * i + 1] = rgb[1];
        payload[3 * i + 2] = rgb[2];
        proof {
            assert forall|k: int| 3 * i <= k < 3 * i + 3 implies payload@[k] == billboard_of(rgb@)[k] by {
                assert(k % 3 == k - 3 * i) by (nonlinear_arith)
                    requires 3 * i <= k < 3 * i + 3;
            }
        }
        i = i + 1;
    }
    assert(payload@ =~= billboard_of(rgb@));
    payload
}

impl Mai2OutputPage {
    /// The page before the game asks for anything.
    pub fn new(touch_enabled: bool) -> (p: Self)
        ensures
            p.touch_enabled == (if touch_enabled { 1u8 } else { 0u8 }),
            p.buttons_sequence == 0 && p.billboard_sequence == 0 && p.pwm_sequence == 0,
            p.buttons@ == Seq::new(56, |i: int| 0u8),
            p.billboard@ == Seq::new(24, |i: int| 0u8),
            p.pwm@ == seq![0u8, 0u8, 0u8],
    {
        let p = Mai2OutputPage {
            touch_enabled: if touch_enabled { 1 } else { 0 },
            buttons_sequence: 0,
            buttons: [0u8; 56],
            billboard_sequence: 0,
            billboard: [0u8; 24],
            pwm_sequence: 0,
            pwm: [0u8; 3],
        };
        assert(p.buttons@ =~= Seq::new(56, |i: int| 0u8));
        assert(p.billboard@ =~= Seq::new(24, |i: int| 0u8));
        assert(p.pwm@ =~= seq![0u8, 0u8, 0u8]);
        p
    }

    /// Enables or disables touch.
    pub fn set_touch_enabled(&mut self, enabled: bool)
        ensures
            *final(self) == (Mai2OutputPage { touch_enabled: if enabled { 1u8 } else { 0u8 }, ..*old(self) }),
    {
        self.touch_enabled = if enabled { 1 } else { 0 };
    }

    /// Stores new button LED fades, counting a change only when they differ
    /// from the stored ones.
    pub fn set_buttons(&mut self, payload: [u8; 56])
        ensures
            old(self).buttons@ == payload@ ==> *final(self) == *old(self),
            old(self).buttons@ != payload@ ==> *final(self) == (Mai2OutputPage {
                buttons: payload,
                buttons_sequence: vstd::wrapping::u64_specs::wrapping_add(old(self).buttons_sequence, 1),
                ..*old(self)
            }),
    {
        if !same_bytes(&self.buttons, &payload) {
            self.buttons = payload;
            self.buttons_sequence = self.buttons_sequence.wrapping_add(1);
        }
    }

    /// Stores new billboard colours, counting a change only when they differ
    /// from the stored ones.
    pub fn set_billboard(&mut self, payload: [u8; 24])
        ensures
            old(self).billboard@ == payload@ ==> *final(self) == *old(self),
            old(self).billboard@ != payload@ ==> *final(self) == (Mai2OutputPage {
                billboard: payload,
                billboard_sequence: vstd::wrapping::u64_specs::wrapping_add(old(self).billboard_sequence, 1),
                ..*old(self)
            }),
    {
        if !same_bytes(&self.billboard, &payload) {
            self.billboard = payload;
            self.billboard_sequence = self.billboard_sequence.wrapping_add(1);
        }
    }

    /// Stores new cabinet light levels, counting a change only when they
    /// differ from the stored ones.
    pub fn set_pwm(&mut self, rgb: [u8; 3])
        ensures
            old(self).pwm@ == rgb@ ==> *final(self) == *old(self),
            old(self).pwm@ != rgb@ ==> *final(self) == (Mai2OutputPage {
                pwm: rgb,
                pwm_sequence: vstd::wrapping::u64_specs::wrapping_add(old(self).pwm_sequence, 1),
                ..*old(self)
            }),
    {
        if !same_bytes(&self.pwm, &rgb) {
            self.pwm = rgb;
            self.pwm_sequence = self.pwm_sequence.wrapping_add(1);
        }
    }
}

/// Handles `led_gs_update` for one board: builds the fades from `rgb` and the
/// previous targets in `latch`, and stores them in that board's page.
/// Requests with fewer than 32 bytes are ignored.
pub fn led_gs_update(latch: &mut [u8; 24], page: &mut Mai2OutputPage, rgb: &[u8])
    ensures
        rgb@.len() < 32 ==> *final(latch) == *old(latch) && *final(page) == *old(page),
        rgb@.len() >= 32 ==> led_gs_updated(*old(latch), *old(page), rgb@, *final(latch), *final(page)),
{
    if rgb.len() < 32 {
        return;
    }
    let payload = led_gs_payload(latch, rgb);
    page.set_buttons(payload);
}

/// What `led_gs_update` does with a request `rgb` of at least 32 bytes: the
/// latch holds the request's targets, and the page holds the fades (a change
/// counted only when they differ), with its other outputs unchanged.
pub open spec fn led_gs_updated(
    latch: [u8; 24],
    page: Mai2OutputPage,
    rgb: Seq<u8>,
    latch2: [u8; 24],
    page2: Mai2OutputPage,
) -> bool {
    &&& latch2@ == gs_targets(rgb)
    &&& page2.buttons@ == gs_payload(latch@, rgb)
    &&& page.buttons@ == gs_payload(latch@, rgb) ==> page2 == page
    &&& page.buttons@ != gs_payload(latch@, rgb) ==> page2.buttons_sequence
        == vstd::wrapping::u64_specs::wrapping_add(page.buttons_sequence, 1)
    &&& page2.touch_enabled == page.touch_enabled
    &&& page2.billboard == page.billboard && page2.billboard_sequence == page.billboard_sequence
    &&& page2.pwm == page.pwm && page2.pwm_sequence == page.pwm_sequence
}

/// What `led_billboard_set` does with a request `rgb` of at least three
/// bytes: the page holds the billboard colours (a change counted only when
/// they differ), with its other outputs unchanged.
pub open spec fn billboard_updated(page: Mai2OutputPage, rgb: Seq<u8>, page2: Mai2OutputPage) -> bool {
    &&& page2.billboard@ == billboard_of(rgb)
    &&& page.billboard@ == billboard_of(rgb) ==> page2 == page
    &&& page.billboard@ != billboard_of(rgb) ==> page2.billboard_sequence
        == vstd::wrapping::u64_specs::wrapping_add(page.billboard_sequence, 1)
    &&& page2.touch_enabled == page.touch_enabled
    &&& page2.buttons == page.buttons && page2.buttons_sequence == page.buttons_sequence
    &&& page2.pwm == page.pwm && page2.pwm_sequence == page.pwm_sequence
}

/// Handles `led_billboard_set` for one board.
/// Requests with fewer than three bytes are ignored.
pub fn led_billboard_set(page: &mut Mai2OutputPage, rgb: &[u8])
    ensures
        rgb@.len() < 3 ==> *final(page) == *old(page),
        rgb@.len() >= 3 ==> billboard_updated(*old(page), rgb@, *final(page)),
{
    if rgb.len() < 3 {
        return;
    }
    let payload = billboard_payload(rgb);
    page.set_billboard(payload);
}


/// Repeating a button LED request settles: once the same request has been
/// handled twice in a row, handling it again changes neither the page nor
/// the latch, so no further change is counted.
pub proof fn repeated_gs_request_settles(
    l0: [u8; 24],
    p0: Mai2OutputPage,
    rgb: Seq<u8>,
    l1: [u8; 24],
    p1: Mai2OutputPage,
    l2: [u8; 24],
    p2: Mai2OutputPage,
    l3: [u8; 24],
    p3: Mai2OutputPage,
)
    requires
        rgb.len() >= 32,
        led_gs_updated(l0, p0, rgb, l1, p1),
        led_gs_updated(l1, p1, rgb, l2, p2),
        led_gs_updated(l2, p2, rgb, l3, p3),
    ensures
        p3 == p2,
        l3@ == l2@,
{
}


/// Repeating a billboard request changes nothing: once it has been handled,
/// handling it again leaves the page as it is.
pub proof fn repeated_billboard_request_settles(p0: Mai2OutputPage, rgb: Seq<u8>, p1: Mai2OutputPage, p2: Mai2OutputPage)
    requires
        rgb.len() >= 3,
        billboard_updated(p0, rgb, p1),
        billboard_updated(p1, rgb, p2),
    ensures
        p2 == p1,
{
}

} // verus!
