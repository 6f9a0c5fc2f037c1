//! Nibble-pair encoding for the HD44780 4-bit interface.
//!
//! The controller sits behind an I2C GPIO expander, so every logical byte
//! (a command byte or a character) is transmitted as two 4-bit halves, and
//! each half takes three physical writes: present the nibble, raise the
//! enable strobe, lower it again. Every physical byte also carries the
//! backlight-enable bit.

use vstd::prelude::*;

verus! {

/// Backlight-enable bit, OR'd into every physical byte.
pub const LCD_BACKLIGHT: u8 = 0x08;

/// Enable-strobe bit: pulsed high then low to latch the presented nibble.
pub const EN: u8 = 0x04;

/// Register-select flag for command bytes.
pub const MODE_CMD: u8 = 0x00;

/// Register-select flag for data (character) bytes.
pub const MODE_RS: u8 = 0x01;

/// High nibble of `cmd` together with the register-select flag.
pub open spec fn spec_first(cmd: u8, mode: u8) -> u8 {
    mode | (cmd & 0xF0)
}

/// Low nibble of `cmd` shifted into the high position, with the flag.
pub open spec fn spec_second(cmd: u8, mode: u8) -> u8 {
    mode | ((cmd << 4) & 0xF0)
}

/// The three physical writes that latch one nibble: settle, strobe high,
/// strobe low, each with the backlight bit set.
pub open spec fn spec_pulse(v: u8) -> Seq<u8> {
    seq![v | LCD_BACKLIGHT, (v | EN) | LCD_BACKLIGHT, (v & !EN) | LCD_BACKLIGHT]
}

/// The six physical writes that transmit one logical byte: the high-nibble
/// pulse triple followed by the low-nibble pulse triple.
pub open spec fn spec_hex_cmd(cmd: u8, mode: u8) -> Seq<u8> {
    spec_pulse(spec_first(cmd, mode)) + spec_pulse(spec_second(cmd, mode))
}

/// Encode one logical byte for the 4-bit interface.
///
/// Produces exactly six bytes, in order: the high-nibble settle/strobe-high/
/// strobe-low triple, then the same triple for the low nibble, every byte
/// carrying the backlight bit.
pub fn hex_cmd(cmd: u8, mode: u8) -> (out: Vec<u8>)
    ensures
        out@ == spec_hex_cmd(cmd, mode),
        out@.len() == 6,
{
    let first: u8 = mode | (cmd & 0xF0);
    let second: u8 = mode | ((cmd << 4) & 0xF0);
    let mut out: Vec<u8> = Vec::new();
    out.push(first | LCD_BACKLIGHT);
    out.push((first | EN) | LCD_BACKLIGHT);
    out.push((first & !EN) | LCD_BACKLIGHT);
    out.push(second | LCD_BACKLIGHT);
    out.push((second | EN) | LCD_BACKLIGHT);
    out.push((second & !EN) | LCD_BACKLIGHT);
    proof {
        assert(out@ =~= spec_hex_cmd(cmd, mode));
    }
    out
}

/// Display-RAM base addresses for the supported geometries, in row order.
///
/// One row starts at 0x80; a second at 0xC0; on four-row displays the third
/// and fourth rows continue the first two, offset by the column count. Any
/// other row count is an unsupported geometry and yields no addresses, as
/// does a four-row display too wide for the address byte (more than 0x3F
/// columns).
pub open spec fn spec_row_addresses(rows: int, cols: int) -> Seq<u8> {
    if rows == 1 {
        seq![0x80u8]
    } else if rows == 2 {
        seq![0x80u8, 0xC0u8]
    } else if rows == 4 && 0 <= cols <= 0x3F {
        seq![0x80u8, 0xC0u8, (0x80 + cols) as u8, (0xC0 + cols) as u8]
    } else {
        Seq::<u8>::empty()
    }
}

/// The row-address table for a display of `rows` rows and `cols` columns.
///
/// Empty exactly when the geometry is unsupported (rows not 1, 2 or 4, or a
/// four-row display wider than 0x3F columns).
pub fn row_addresses(rows: usize, cols: usize) -> (r: Vec<u8>)
    ensures
        r@ == spec_row_addresses(rows as int, cols as int),
{
    let mut r: Vec<u8> = Vec::new();
    if rows == 4 {
        if cols <= 0x3F {
            r.push(0x80);
            r.push(0xC0);
            r.push(0x80 + cols as u8);
            r.push(0xC0 + cols as u8);
        }
    } else if rows == 2 {
        r.push(0x80);
        r.push(0xC0);
    } else if rows == 1 {
        r.push(0x80);
    }
    proof {
        assert(r@ =~= spec_row_addresses(rows as int, cols as int));
    }
    r
}

/// `msg` truncated or space-padded to exactly `cols` data bytes.
pub open spec fn spec_padded(msg: Seq<u8>, cols: nat) -> Seq<u8> {
    if msg.len() >= cols {
        msg.take(cols as int)
    } else {
        msg + Seq::<u8>::new((cols - msg.len()) as nat, |i: int| 0x20u8)
    }
}

/// The physical writes that transmit `data` byte for byte in data mode:
/// six writes per logical byte, in order.
pub open spec fn spec_data_plan(data: Seq<u8>) -> Seq<u8> {
    Seq::<u8>::new(6 * data.len(), |i: int| spec_hex_cmd(data[i / 6], MODE_RS)[i % 6])
}

/// The physical writes for one whole line: the row-address command byte,
/// then the truncated-or-padded message in data mode.
pub open spec fn spec_line_plan(addr: u8, msg: Seq<u8>, cols: nat) -> Seq<u8> {
    spec_hex_cmd(addr, MODE_CMD) + spec_data_plan(spec_padded(msg, cols))
}

/// Appending one logical byte to the data extends its plan by that byte's
/// six writes.
pub proof fn lemma_data_plan_push(data: Seq<u8>, b: u8)
    ensures
        spec_data_plan(data.push(b)) =~= spec_data_plan(data) + spec_hex_cmd(b, MODE_RS),
{
    let lhs = spec_data_plan(data.push(b));
    let rhs = spec_data_plan(data) + spec_hex_cmd(b, MODE_RS);
    assert(lhs.len() == rhs.len());
    assert forall|i: int| 0 <= i < lhs.len() implies lhs[i] == rhs[i] by {
        if i < 6 * data.len() {
            assert(i / 6 < data.len()) by (nonlinear_arith)
                requires 0 <= i && i < 6 * data.len();
            assert(data.push(b)[i / 6] == data[i / 6]);
        } else {
            assert(i / 6 == data.len() && i % 6 == i - 6 * data.len()) by (nonlinear_arith)
                requires 6 * data.len() <= i && i < 6 * (data.len() + 1);
            assert(data.push(b)[i / 6] == b);
        }
    }
}

fn push_all(dst: &mut Vec<u8>, src: &Vec<u8>)
    ensures
        final(dst)@ == old(dst)@ + src@,
{
    let ghost dst0: Seq<u8> = dst@;
    let mut k: usize = 0;
    while k < src.len()
        invariant
            k <= src.len(),
            dst@ == dst0 + src@.take(k as int),
        decreases src.len() - k,
    {
        dst.push(src[k]);
        proof {
            assert(dst0 + src@.take(k as int + 1) =~= (dst0 + src@.take(k as int)).push(src@[k as int]));
        }
        k += 1;
    }
    proof {
        assert(dst0 + src@.take(src@.len() as int) =~= dst0 + src@);
    }
}

/// Build the write plan for one line: the row-address command byte encoded
/// first, then each of the `cols` data bytes of the truncated-or-padded
/// message, each logical byte expanded to its six physical writes.
pub fn build_line_plan(addr: u8, msg: &[u8], cols: usize) -> (plan: Vec<u8>)
    ensures
        plan@ == spec_line_plan(addr, msg@, cols as nat),
        plan@.len() == 6 * (1 + cols as int),
{
    let ghost padded: Seq<u8> = spec_padded(msg@, cols as nat);
    proof {
        assert(padded.len() == cols as int);
    }
    let mut plan: Vec<u8> = hex_cmd(addr, MODE_CMD);
    let limit: usize = if msg.len() <= cols { msg.len() } else { cols };
    let mut el: usize = 0;
    while el < limit
        invariant
            limit <= cols,
            limit <= msg@.len(),
            el <= limit,
            padded == spec_padded(msg@, cols as nat),
            padded.len() == cols as int,
            forall|i: int| 0 <= i < limit ==> padded[i] == msg@[i],
            plan@ == spec_hex_cmd(addr, MODE_CMD) + spec_data_plan(padded.take(el as int)),
        decreases limit - el,
    {
        let six = hex_cmd(msg[el], MODE_RS);
        push_all(&mut plan, &six);
        proof {
            lemma_data_plan_push(padded.take(el as int), padded[el as int]);
            assert(padded.take(el as int).push(padded[el as int]) =~= padded.take(el as int + 1));
        }
        el += 1;
    }
    while el < cols
        invariant
            limit <= el <= cols,
            padded == spec_padded(msg@, cols as nat),
            padded.len() == cols as int,
            forall|i: int| limit <= i < cols ==> padded[i] == 0x20u8,
            plan@ == spec_hex_cmd(addr, MODE_CMD) + spec_data_plan(padded.take(el as int)),
        decreases cols - el,
    {
        let six = hex_cmd(0x20, MODE_RS);
        push_all(&mut plan, &six);
        proof {
            lemma_data_plan_push(padded.take(el as int), padded[el as int]);
            assert(padded.take(el as int).push(padded[el as int]) =~= padded.take(el as int + 1));
        }
        el += 1;
    }
    proof {
        assert(padded.take(cols as int) =~= padded);
    }
    plan
}

/// The documented HD44780 power-on handshake for 4-bit mode, flattened into
/// the order the bytes go onto the bus: ten logical steps of six physical
/// writes each (the controller is forced into 8-bit mode three times, then
/// switched to 4-bit mode, function set, display on, clear, entry mode).
pub open spec fn spec_init_sequence() -> Seq<u8> {
    seq![
        0x08u8, 0x0cu8, 0x08u8, 0x38u8, 0x3cu8, 0x38u8,
        0x08u8, 0x0cu8, 0x08u8, 0x38u8, 0x3cu8, 0x38u8,
        0x08u8, 0x0cu8, 0x08u8, 0x38u8, 0x3cu8, 0x38u8,
        0x08u8, 0x0cu8, 0x08u8, 0x28u8, 0x2cu8, 0x28u8,
        0x28u8, 0x2cu8, 0x28u8, 0x88u8, 0x8cu8, 0x88u8,
        0x08u8, 0x0cu8, 0x08u8, 0xc8u8, 0xccu8, 0xc8u8,
        0x08u8, 0x0cu8, 0x08u8, 0x18u8, 0x1cu8, 0x18u8,
        0x08u8, 0x0cu8, 0x08u8, 0x68u8, 0x6cu8, 0x68u8,
        0x08u8, 0x0cu8, 0x08u8, 0x18u8, 0x1cu8, 0x18u8,
        0x08u8, 0x0cu8, 0x08u8, 0x28u8, 0x2cu8, 0x28u8,
    ]
}

/// The power-on handshake as a write plan, one byte per physical write.
pub fn init_sequence() -> (r: Vec<u8>)
    ensures
        r@ == spec_init_sequence(),
        r@.len() == 60,
{
    let mut r: Vec<u8> = Vec::new();
    push_step(&mut r, 0x08, 0x0c, 0x08, 0x38, 0x3c, 0x38);
    push_step(&mut r, 0x08, 0x0c, 0x08, 0x38, 0x3c, 0x38);
    push_step(&mut r, 0x08, 0x0c, 0x08, 0x38, 0x3c, 0x38);
    push_step(&mut r, 0x08, 0x0c, 0x08, 0x28, 0x2c, 0x28);
    push_step(&mut r, 0x28, 0x2c, 0x28, 0x88, 0x8c, 0x88);
    push_step(&mut r, 0x08, 0x0c, 0x08, 0xc8, 0xcc, 0xc8);
    push_step(&mut r, 0x08, 0x0c, 0x08, 0x18, 0x1c, 0x18);
    push_step(&mut r, 0x08, 0x0c, 0x08, 0x68, 0x6c, 0x68);
    push_step(&mut r, 0x08, 0x0c, 0x08, 0x18, 0x1c, 0x18);
    push_step(&mut r, 0x08, 0x0c, 0x08, 0x28, 0x2c, 0x28);
    proof {
        assert(r@ =~= spec_init_sequence());
    }
    r
}

/// Append one handshake step: two settle/strobe-high/strobe-low triples.
fn push_step(r: &mut Vec<u8>, b0: u8, b1: u8, b2: u8, b3: u8, b4: u8, b5: u8)
    ensures
        final(r)@ == old(r)@ + seq![b0, b1, b2, b3, b4, b5],
{
    r.push(b0);
    r.push(b1);
    r.push(b2);
    r.push(b3);
    r.push(b4);
    r.push(b5);
    proof {
        assert(r@ =~= old(r)@ + seq![b0, b1, b2, b3, b4, b5]);
    }
}

/// Law: the encoder always yields exactly six values, in order: settle,
/// strobe-high, strobe-low for the high nibble, then the same triple for the
/// low nibble, each carrying the backlight bit.
pub proof fn lemma_nibble_pair_shape(cmd: u8, mode: u8)
    ensures
        spec_hex_cmd(cmd, mode) =~= seq![
            spec_first(cmd, mode) | LCD_BACKLIGHT,
            (spec_first(cmd, mode) | EN) | LCD_BACKLIGHT,
            (spec_first(cmd, mode) & !EN) | LCD_BACKLIGHT,
            spec_second(cmd, mode) | LCD_BACKLIGHT,
            (spec_second(cmd, mode) | EN) | LCD_BACKLIGHT,
            (spec_second(cmd, mode) & !EN) | LCD_BACKLIGHT,
        ],
{
}

/// Law: the row-address tables for the supported geometries, spelled out.
pub proof fn lemma_row_address_table(cols: int)
    requires
        0 <= cols <= 0x3F,
    ensures
        spec_row_addresses(1, cols) =~= seq![0x80u8],
        spec_row_addresses(2, cols) =~= seq![0x80u8, 0xC0u8],
        spec_row_addresses(4, cols) =~= (seq![
            0x80u8,
            0xC0u8,
            (0x80 + cols) as u8,
            (0xC0 + cols) as u8,
        ]),
{
}

/// Law: a message at least as long as the display is truncated — exactly
/// `cols` data bytes are emitted, all taken from the message's prefix.
pub proof fn lemma_long_message_truncates(msg: Seq<u8>, cols: nat)
    requires
        msg.len() >= cols,
    ensures
        spec_padded(msg, cols).len() == cols,
        spec_padded(msg, cols) =~= msg.take(cols as int),
{
}

/// Law: a message shorter than the display is padded — its bytes are
/// emitted unchanged, followed by spaces up to the column count.
pub proof fn lemma_short_message_pads(msg: Seq<u8>, cols: nat)
    requires
        msg.len() < cols,
    ensures
        spec_padded(msg, cols).len() == cols,
        forall|i: int| 0 <= i < msg.len() ==> spec_padded(msg, cols)[i] == msg[i],
        forall|i: int| msg.len() <= i < cols ==> spec_padded(msg, cols)[i] == 0x20u8,
{
}

/// Law: one line costs `6 * (1 + cols)` physical writes — one command byte
/// plus one data byte per column, each expanded six-fold.
pub proof fn lemma_line_plan_len(addr: u8, msg: Seq<u8>, cols: nat)
    ensures
        spec_line_plan(addr, msg, cols).len() == 6 * (1 + cols),
{
}

/// Law: the first six writes of a line plan encode the row address as a
/// command byte, and the six writes for column `c` encode data byte `c` of
/// the truncated-or-padded message.
pub proof fn lemma_line_plan_blocks(addr: u8, msg: Seq<u8>, cols: nat, c: int)
    requires
        0 <= c < cols,
    ensures
        spec_line_plan(addr, msg, cols).take(6) =~= spec_hex_cmd(addr, MODE_CMD),
        spec_line_plan(addr, msg, cols).subrange(6 + 6 * c, 12 + 6 * c)
            =~= spec_hex_cmd(spec_padded(msg, cols)[c], MODE_RS),
{
    let plan = spec_line_plan(addr, msg, cols);
    let padded = spec_padded(msg, cols);
    let block = plan.subrange(6 + 6 * c, 12 + 6 * c);
    assert forall|j: int| 0 <= j < 6 implies block[j] == spec_hex_cmd(padded[c], MODE_RS)[j] by {
        assert(block[j] == spec_data_plan(padded)[6 * c + j]);
        assert((6 * c + j) / 6 == c && (6 * c + j) % 6 == j) by (nonlinear_arith)
            requires 0 <= j < 6 && 0 <= c;
    }
}

} // verus!
