use crate::error::DriverError;
use crate::port::{Access, Bus, MemoryPort};
use crate::register::lemma_low_mask_values;
use crate::uart_register::{UartRegister, UART_BASE, UART_COUNT, UART_STRIDE, UARK_CLK};
use vstd::arithmetic::div_mod::{
    lemma_div_denominator, lemma_div_multiples_vanish_fancy, lemma_fundamental_div_mod,
};
use vstd::prelude::*;

verus! {

/// Data bits per frame.
#[derive(Clone, Copy, Debug, PartialEq, Eq, Structural)]
pub enum WordLength {
    Bits8,
    Bits7,
    Bits6,
    Bits5,
}

#[derive(Clone, Copy, Debug, PartialEq, Eq, Structural)]
pub enum ParitySelect {
    Even,
    Odd,
}

#[derive(Clone, Copy, Debug, PartialEq, Eq, Structural)]
pub enum StickParityEnableMode {
    Disabled,
    Enabled,
}

#[derive(Clone, Copy, Debug, PartialEq, Eq, Structural)]
pub enum FIFOEnableMode {
    Enabled,
    Disabled,
}

#[derive(Clone, Copy, Debug, PartialEq, Eq, Structural)]
pub enum ParityEnableMode {
    Disabled,
    Enabled(ParitySelect),
}

#[derive(Clone, Copy, Debug, PartialEq, Eq, Structural)]
pub enum StopBitMode {
    OneStopBit,
    TwoStopBits,
}

/// Which of the transmitter and receiver bring-up switches on.
#[derive(Clone, Copy, Debug, PartialEq, Eq, Structural)]
pub enum TransmitMode {
    TxOnly,
    RxOnly,
    Bidirectional,
}

/// Everything bring-up needs to know about one UART.
#[derive(Clone, Copy, Debug, PartialEq, Eq, Structural)]
pub struct UartConfig {
    pub uart_index: usize,
    pub baud_rate: usize,
    pub word_length: WordLength,
    pub fifo_enable_mode: FIFOEnableMode,
    pub parity_enable_mode: ParityEnableMode,
    pub stick_parity_enable_mode: StickParityEnableMode,
    pub stop_bit_mode: StopBitMode,
    pub transmit_mode: TransmitMode,
}

/// The configuration a builder starts from: 115200 baud, eight data bits, no
/// parity, one stop bit, FIFOs off, both directions, and an instance index
/// one past the first invalid one, so that an instance must be chosen.
pub open spec fn default_config() -> UartConfig {
    UartConfig {
        uart_index: (UART_COUNT + 1) as usize,
        baud_rate: 115200,
        word_length: WordLength::Bits8,
        fifo_enable_mode: FIFOEnableMode::Disabled,
        parity_enable_mode: ParityEnableMode::Disabled,
        stick_parity_enable_mode: StickParityEnableMode::Disabled,
        stop_bit_mode: StopBitMode::OneStopBit,
        transmit_mode: TransmitMode::Bidirectional,
    }
}

/// A UART configuration assembled one setting at a time, then brought up with
/// `build`.
pub struct InstanceBuilder {
    config: UartConfig,
}

impl View for InstanceBuilder {
    type V = UartConfig;

    closed spec fn view(&self) -> UartConfig {
        self.config
    }
}

impl Default for InstanceBuilder {
    fn default() -> (r: InstanceBuilder)
        ensures
            r@ == default_config(),
    {
        InstanceBuilder {
            config: UartConfig {
                uart_index: UART_COUNT + 1,
                baud_rate: 115200,
                word_length: WordLength::Bits8,
                fifo_enable_mode: FIFOEnableMode::Disabled,
                parity_enable_mode: ParityEnableMode::Disabled,
                stick_parity_enable_mode: StickParityEnableMode::Disabled,
                stop_bit_mode: StopBitMode::OneStopBit,
                transmit_mode: TransmitMode::Bidirectional,
            },
        }
    }
}

impl InstanceBuilder {
    /// The default configuration aimed at UART `uart_index`.
    pub fn new(uart_index: usize) -> (r: InstanceBuilder)
        ensures
            r@ == (UartConfig { uart_index, ..default_config() }),
    {
        let d = InstanceBuilder::default();
        InstanceBuilder { config: UartConfig { uart_index, ..d.config } }
    }

    pub fn with_word_length(self, word_length: WordLength) -> (r: InstanceBuilder)
        ensures
            r@ == (UartConfig { word_length, ..self@ }),
    {
        InstanceBuilder { config: UartConfig { word_length, ..self.config } }
    }

    pub fn with_fifo(self) -> (r: InstanceBuilder)
        ensures
            r@ == (UartConfig { fifo_enable_mode: FIFOEnableMode::Enabled, ..self@ }),
    {
        InstanceBuilder {
            config: UartConfig { fifo_enable_mode: FIFOEnableMode::Enabled, ..self.config },
        }
    }

    pub fn with_parity(self, parity_mode: ParitySelect) -> (r: InstanceBuilder)
        ensures
            r@ == (UartConfig {
                parity_enable_mode: ParityEnableMode::Enabled(parity_mode),
                ..self@
            }),
    {
        InstanceBuilder {
            config: UartConfig {
                parity_enable_mode: ParityEnableMode::Enabled(parity_mode),
                ..self.config
            },
        }
    }

    pub fn with_stick_parity(self) -> (r: InstanceBuilder)
        ensures
            r@ == (UartConfig {
                stick_parity_enable_mode: StickParityEnableMode::Enabled,
                ..self@
            }),
    {
        InstanceBuilder {
            config: UartConfig {
                stick_parity_enable_mode: StickParityEnableMode::Enabled,
                ..self.config
            },
        }
    }

    pub fn with_stop_bit_mode(self, stop_bit_mode: StopBitMode) -> (r: InstanceBuilder)
        ensures
            r@ == (UartConfig { stop_bit_mode, ..self@ }),
    {
        InstanceBuilder { config: UartConfig { stop_bit_mode, ..self.config } }
    }

    pub fn with_baud_rate(self, baud_rate: usize) -> (r: InstanceBuilder)
        ensures
            r@ == (UartConfig { baud_rate, ..self@ }),
    {
        InstanceBuilder { config: UartConfig { baud_rate, ..self.config } }
    }

    pub fn with_transmit_mode(self, transmit_mode: TransmitMode) -> (r: InstanceBuilder)
        ensures
            r@ == (UartConfig { transmit_mode, ..self@ }),
    {
        InstanceBuilder { config: UartConfig { transmit_mode, ..self.config } }
    }

    /// Brings up the configured UART through `bus`, and hands out the handle
    /// of the running instance.
    pub fn build<P: MemoryPort>(self, bus: &mut Bus<P>) -> (r: Result<UartInstance, DriverError>)
        ensures
            extends(old(bus).accesses(), final(bus).accesses()),
            bring_up(
                self@,
                old(bus).poll_limit(),
                added(old(bus).accesses(), final(bus).accesses()),
                outcome(r),
            ),
            r is Ok ==> r->Ok_0.wf() && r->Ok_0.index() == self@.uart_index,
            final(bus).poll_limit() == old(bus).poll_limit(),
    {
        UartInstance::new(self, bus)
    }

    pub fn config(&self) -> (r: UartConfig)
        ensures
            r == self@,
    {
        self.config
    }
}

/// Bits 2:1 of the line-control register: parity enable and even-parity select.
pub open spec fn parity_field(p: ParityEnableMode) -> u64 {
    match p {
        ParityEnableMode::Disabled => 0,
        ParityEnableMode::Enabled(ParitySelect::Odd) => 0b010,
        ParityEnableMode::Enabled(ParitySelect::Even) => 0b110,
    }
}

/// Bit 3: two stop bits.
pub open spec fn stop_field(s: StopBitMode) -> u64 {
    match s {
        StopBitMode::OneStopBit => 0,
        StopBitMode::TwoStopBits => 0b0000_1000,
    }
}

/// Bit 4: FIFOs enabled.
pub open spec fn fifo_field(f: FIFOEnableMode) -> u64 {
    match f {
        FIFOEnableMode::Enabled => 0b0001_0000,
        FIFOEnableMode::Disabled => 0,
    }
}

/// Bits 6:5: word length code, 0b11 for eight bits down to 0b00 for five.
pub open spec fn word_length_field(w: WordLength) -> u64 {
    match w {
        WordLength::Bits8 => 0b0110_0000,
        WordLength::Bits7 => 0b0100_0000,
        WordLength::Bits6 => 0b0010_0000,
        WordLength::Bits5 => 0b0000_0000,
    }
}

/// Bit 7: stick parity.
pub open spec fn stick_field(s: StickParityEnableMode) -> u64 {
    match s {
        StickParityEnableMode::Disabled => 0,
        StickParityEnableMode::Enabled => 0b1000_0000,
    }
}

/// The line-control byte: the fields above, each in its own bit positions.
pub open spec fn line_control_byte(
    word_length: WordLength,
    fifo_enable_mode: FIFOEnableMode,
    parity_enable_mode: ParityEnableMode,
    stick_parity_enable_mode: StickParityEnableMode,
    stop_bit_mode: StopBitMode,
) -> u64 {
    parity_field(parity_enable_mode) | stop_field(stop_bit_mode) | fifo_field(fifo_enable_mode)
        | word_length_field(word_length) | stick_field(stick_parity_enable_mode)
}

/// Computes the line-control byte for the given frame format; the break bit
/// (bit 0) stays clear.
pub fn line_control_value(
    word_length: WordLength,
    fifo_enable_mode: FIFOEnableMode,
    parity_enable_mode: ParityEnableMode,
    stick_parity_enable_mode: StickParityEnableMode,
    stop_bit_mode: StopBitMode,
) -> (r: u64)
    ensures
        r == line_control_byte(
            word_length,
            fifo_enable_mode,
            parity_enable_mode,
            stick_parity_enable_mode,
            stop_bit_mode,
        ),
        r < 256,
{
    let mut value: u64 = 0;
    value = value | match parity_enable_mode {
        ParityEnableMode::Disabled => 0,
        ParityEnableMode::Enabled(ParitySelect::Odd) => 0b010,
        ParityEnableMode::Enabled(ParitySelect::Even) => 0b110,
    };
    value = value | match stop_bit_mode {
        StopBitMode::OneStopBit => 0,
        StopBitMode::TwoStopBits => 0b0000_1000,
    };
    value = value | match fifo_enable_mode {
        FIFOEnableMode::Enabled => 0b0001_0000,
        FIFOEnableMode::Disabled => 0,
    };
    value = value | match word_length {
        WordLength::Bits8 => 0b0110_0000,
        WordLength::Bits7 => 0b0100_0000,
        WordLength::Bits6 => 0b0010_0000,
        WordLength::Bits5 => 0b0000_0000,
    };
    value = value | match stick_parity_enable_mode {
        StickParityEnableMode::Disabled => 0,
        StickParityEnableMode::Enabled => 0b1000_0000,
    };
    let ghost p = parity_field(parity_enable_mode);
    let ghost s = stop_field(stop_bit_mode);
    let ghost f = fifo_field(fifo_enable_mode);
    let ghost w = word_length_field(word_length);
    let ghost k = stick_field(stick_parity_enable_mode);
    assert(p <= 6 && (s == 0 || s == 8) && (f == 0 || f == 16) && (w == 0 || w == 32 || w == 64
        || w == 96) && (k == 0 || k == 128));
    assert(0u64 | p == p) by (bit_vector);
    assert((p | s | f | w | k) < 256) by (bit_vector)
        requires
            p <= 6 && (s == 0 || s == 8) && (f == 0 || f == 16) && (w == 0 || w == 32 || w == 64
                || w == 96) && (k == 0 || k == 128),
    ;
    value
}

/// The integer part of the divisor `clock / (16 * baud)`.
pub open spec fn integer_divisor(baud_rate: nat) -> nat {
    UARK_CLK as nat / (16 * baud_rate)
}

/// The fractional part of the divisor `clock / (16 * baud)` in sixty-fourths,
/// rounded to nearest with halves up: `round(64 * (clock % (16 * baud)) / (16 * baud))`.
/// It reaches 64 when the fraction rounds up to a whole.
pub open spec fn fractional_divisor(baud_rate: nat) -> nat {
    (8 * (UARK_CLK as nat % (16 * baud_rate)) + baud_rate) / (2 * baud_rate)
}

/// The integer and fractional baud-rate divisors for `baud_rate` at the UART
/// reference clock; a baud rate of zero is refused. The registers keep the low
/// 16 and 6 bits of these.
pub fn baud_rate_divisors(baud_rate: usize) -> (r: Result<(u64, u64), DriverError>)
    ensures
        r is Err <==> baud_rate == 0,
        r is Err ==> r->Err_0 == DriverError::InvalidBaudRate,
        r is Ok ==> r->Ok_0.0 as nat == integer_divisor(baud_rate as nat) && r->Ok_0.1 as nat
            == fractional_divisor(baud_rate as nat),
{
    if baud_rate == 0 {
        return Err(DriverError::InvalidBaudRate);
    }
    let b: u64 = baud_rate as u64;
    let clk: u64 = UARK_CLK as u64;
    let q: u64 = (clk / 16) / b;
    let ghost c: int = clk as int;
    let ghost bb: int = b as int;
    let ghost d: int = 16 * bb;
    proof {
        lemma_div_denominator(c, 16, bb);
        lemma_fundamental_div_mod(c, d);
        assert(0 <= c % d < d);
        assert((q as int) * d <= c) by (nonlinear_arith)
            requires
                c == d * (q as int) + c % d,
                0 <= c % d,
        ;
    }
    assert((q as int) * 16 * bb <= c) by (nonlinear_arith)
        requires
            (q as int) * d <= c,
            d == 16 * bb,
    ;
    let rest: u64 = clk - q * 16 * b;
    assert(rest as int == c % d) by (nonlinear_arith)
        requires
            c == d * (q as int) + c % d,
            d == 16 * bb,
            rest as int == c - (q as int) * 16 * bb,
    ;
    let f: u64 = ((8 * rest) / b + 1) / 2;
    proof {
        // Rounding 8 * rest / b to an even count and halving it is rounding
        // 4 * rest / b to nearest.
        let x: int = 8 * (rest as int);
        let qq: int = x / bb;
        let m: int = x % bb;
        lemma_fundamental_div_mod(x, bb);
        assert(0 <= m < bb);
        let a: int = (qq + 1) / 2;
        let e: int = (qq + 1) % 2;
        lemma_fundamental_div_mod(qq + 1, 2);
        assert(x + bb == (2 * bb) * a + (e * bb + m)) by (nonlinear_arith)
            requires
                x == bb * qq + m,
                qq + 1 == 2 * a + e,
        ;
        assert(0 <= e * bb + m < 2 * bb) by (nonlinear_arith)
            requires
                0 <= e <= 1,
                0 <= m < bb,
        ;
        lemma_div_multiples_vanish_fancy(a, e * bb + m, 2 * bb);
        assert(f as int == a);
    }
    Ok((q, f))
}

/// The address of register `r` of UART `uart_index`.
pub open spec fn reg_addr(uart_index: usize, r: UartRegister) -> u64 {
    (UART_BASE + UART_STRIDE * uart_index + r.spec_definition().offset) as u64
}

/// A load of `width` bytes from register `r` of UART `uart_index`.
pub open spec fn load(uart_index: usize, r: UartRegister, width: usize, value: u64) -> Access {
    Access::Read { addr: reg_addr(uart_index, r), width, value }
}

/// A store of `width` bytes to register `r` of UART `uart_index`.
pub open spec fn store(uart_index: usize, r: UartRegister, width: usize, value: u64) -> Access {
    Access::Write { addr: reg_addr(uart_index, r), width, value }
}

/// The accesses that `after` holds beyond `before`.
pub open spec fn added(before: Seq<Access>, after: Seq<Access>) -> Seq<Access> {
    after.subrange(before.len() as int, after.len() as int)
}

/// `after` is `before` with more accesses appended.
pub open spec fn extends(before: Seq<Access>, after: Seq<Access>) -> bool {
    before.len() <= after.len() && after.subrange(0, before.len() as int) == before
}

/// A snapshot of the flag register.
#[derive(Clone, Copy, Debug, PartialEq, Eq, Structural)]
pub struct Flags {
    /// Clear to send
    pub cts: bool,
    /// Data set ready
    pub dsr: bool,
    /// Data carrier detect
    pub dcd: bool,
    /// Transmitting
    pub busy: bool,
    /// Receive FIFO empty
    pub rxfe: bool,
    /// Transmit FIFO full
    pub txff: bool,
    /// Receive FIFO full
    pub rxff: bool,
    /// Transmit FIFO empty
    pub txfe: bool,
}

/// The flags that the low eight bits of a flag-register value encode.
pub open spec fn decode_flags(v: u64) -> Flags {
    Flags {
        cts: v & 0x01 != 0,
        dsr: v & 0x02 != 0,
        dcd: v & 0x04 != 0,
        busy: v & 0x08 != 0,
        rxfe: v & 0x10 != 0,
        txff: v & 0x20 != 0,
        rxff: v & 0x40 != 0,
        txfe: v & 0x80 != 0,
    }
}

/// `a` is a load of the flag register of UART `uart_index`, as the engine
/// makes it (nine bits, two bytes).
pub open spec fn is_flag_load(uart_index: usize, a: Access) -> bool {
    a is Read && a == load(uart_index, UartRegister::Flag, 2, a->Read_value)
}

/// The flags that the flag-register load `a` saw.
pub open spec fn flags_seen(a: Access) -> Flags {
    decode_flags(a->Read_value & 0x1FF)
}

/// Every access of `s` is a flag load that saw the transmitter busy.
pub open spec fn busy_polls(uart_index: usize, s: Seq<Access>) -> bool {
    forall|k: int| 0 <= k < s.len() ==> is_flag_load(uart_index, #[trigger] s[k]) && flags_seen(
        s[k],
    ).busy
}

/// `s` is a wait that ended: flag loads that saw the transmitter busy, then one
/// that saw it idle, no more than `limit` in all.
pub open spec fn waited_until_idle(uart_index: usize, limit: nat, s: Seq<Access>) -> bool {
    &&& 0 < s.len() <= limit
    &&& busy_polls(uart_index, s.drop_last())
    &&& is_flag_load(uart_index, s.last())
    &&& !flags_seen(s.last()).busy
}

/// `s` is a wait that gave up: `limit` flag loads, each of which saw the
/// transmitter busy.
pub open spec fn gave_up_waiting(uart_index: usize, limit: nat, s: Seq<Access>) -> bool {
    s.len() == limit && busy_polls(uart_index, s)
}

impl Flags {
    /// Loads the flag register of UART `uart_index` once and decodes it.
    pub(crate) fn read<P: MemoryPort>(bus: &mut Bus<P>, uart_index: usize) -> (r: Flags)
        requires
            uart_index < UART_COUNT,
        ensures
            extends(old(bus).accesses(), final(bus).accesses()),
            added(old(bus).accesses(), final(bus).accesses()).len() == 1,
            final(bus).accesses() == old(bus).accesses().push(final(bus).accesses().last()),
            is_flag_load(uart_index, final(bus).accesses().last()),
            r == flags_seen(final(bus).accesses().last()),
            final(bus).poll_limit() == old(bus).poll_limit(),
    {
        let reg = UartRegister::Flag.definition();
        proof {
            lemma_low_mask_values();
        }
        let v = match reg.read(bus, uart_index, reg.bit_width) {
            Ok(result) => result.value,
            Err(_) => {
                assert(false);
                0
            },
        };
        proof {
            assert(final(bus).accesses().subrange(0, old(bus).accesses().len() as int)
                =~= old(bus).accesses());
        }
        Flags {
            cts: v & 0x01 != 0,
            dsr: v & 0x02 != 0,
            dcd: v & 0x04 != 0,
            busy: v & 0x08 != 0,
            rxfe: v & 0x10 != 0,
            txff: v & 0x20 != 0,
            rxff: v & 0x40 != 0,
            txfe: v & 0x80 != 0,
        }
    }

    pub fn clear_to_send(&self) -> (r: bool)
        ensures
            r == self.cts,
    {
        self.cts
    }

    pub fn data_set_ready(&self) -> (r: bool)
        ensures
            r == self.dsr,
    {
        self.dsr
    }

    pub fn data_carrier_detect(&self) -> (r: bool)
        ensures
            r == self.dcd,
    {
        self.dcd
    }

    pub fn transmit_busy(&self) -> (r: bool)
        ensures
            r == self.busy,
    {
        self.busy
    }

    pub fn receive_fifo_empty(&self) -> (r: bool)
        ensures
            r == self.rxfe,
    {
        self.rxfe
    }

    pub fn transmit_fifo_empty(&self) -> (r: bool)
        ensures
            r == self.txfe,
    {
        self.txfe
    }

    pub fn receive_fifo_full(&self) -> (r: bool)
        ensures
            r == self.rxff,
    {
        self.rxff
    }

    pub fn transmit_fifo_full(&self) -> (r: bool)
        ensures
            r == self.txff,
    {
        self.txff
    }
}

/// Polls the flag register of UART `uart_index` until the transmitter is idle,
/// at most as many times as the bus allows.
fn busy_wait_last_transmit<P: MemoryPort>(bus: &mut Bus<P>, uart_index: usize) -> (r: Result<
    (),
    DriverError,
>)
    requires
        uart_index < UART_COUNT,
    ensures
        extends(old(bus).accesses(), final(bus).accesses()),
        r is Ok ==> waited_until_idle(
            uart_index,
            old(bus).poll_limit(),
            added(old(bus).accesses(), final(bus).accesses()),
        ),
        r is Err ==> r->Err_0 == DriverError::WaitExhausted && gave_up_waiting(
            uart_index,
            old(bus).poll_limit(),
            added(old(bus).accesses(), final(bus).accesses()),
        ),
        final(bus).poll_limit() == old(bus).poll_limit(),
{
    let ghost start = bus.accesses();
    let limit = bus.max_polls();
    let mut polls: usize = 0;
    assert(added(start, bus.accesses()) =~= Seq::<Access>::empty());
    assert(bus.accesses().subrange(0, start.len() as int) =~= start);
    while polls < limit
        invariant
            uart_index < UART_COUNT,
            polls <= limit,
            limit as nat == bus.poll_limit(),
            bus.poll_limit() == old(bus).poll_limit(),
            start == old(bus).accesses(),
            extends(start, bus.accesses()),
            added(start, bus.accesses()).len() == polls,
            busy_polls(uart_index, added(start, bus.accesses())),
        decreases limit - polls,
    {
        let ghost before = bus.accesses();
        let flags = Flags::read(bus, uart_index);
        polls = polls + 1;
        proof {
            let a = bus.accesses();
            assert(a.subrange(0, before.len() as int) =~= before);
            assert(a =~= before.push(a.last()));
            assert(a.subrange(0, start.len() as int) =~= start);
            assert(added(start, a) =~= added(start, before).push(a.last()));
            assert(added(start, a).drop_last() =~= added(start, before));
        }
        if !flags.busy {
            return Ok(());
        }
    }
    Err(DriverError::WaitExhausted)
}

proof fn lemma_push_extends(a: Seq<Access>, x: Access)
    ensures
        extends(a, a.push(x)),
        added(a, a.push(x)) == seq![x],
{
    assert(a.push(x).subrange(0, a.len() as int) =~= a);
    assert(added(a, a.push(x)) =~= seq![x]);
}

proof fn lemma_extends_same(a: Seq<Access>)
    ensures
        extends(a, a),
        added(a, a) == Seq::<Access>::empty(),
{
    assert(a.subrange(0, a.len() as int) =~= a);
    assert(added(a, a) =~= Seq::<Access>::empty());
}

proof fn lemma_extends_trans(a: Seq<Access>, b: Seq<Access>, c: Seq<Access>)
    requires
        extends(a, b),
        extends(b, c),
    ensures
        extends(a, c),
        added(a, c) == added(a, b) + added(b, c),
{
    assert(c.subrange(0, a.len() as int) =~= c.subrange(0, b.len() as int).subrange(
        0,
        a.len() as int,
    ));
    assert(added(a, c) =~= added(a, b) + added(b, c));
}

/// The control register with the UART, its transmitter and its receiver
/// switched off (bits 0, 8 and 9 cleared).
pub open spec fn disabled_control(cr: u64) -> u64 {
    cr & !0x301u64
}

/// The line-control register with the FIFOs switched off (bit 4 cleared).
pub open spec fn flushed_line_control(lcr: u64) -> u64 {
    lcr & !0x10u64
}

/// The control register with the enable bit (bit 0) set, and the transmit
/// (bit 8) and receive (bit 9) enables as the transmit mode asks.
pub open spec fn enabled_control(cr: u64, mode: TransmitMode) -> u64 {
    match mode {
        TransmitMode::TxOnly => ((cr | 0x100) & !0x200u64) | 0x1,
        TransmitMode::RxOnly => ((cr & !0x100u64) | 0x200) | 0x1,
        TransmitMode::Bidirectional => cr | 0x301,
    }
}

/// `t` is a load of the line-control register and a store of it back with the
/// FIFOs switched off; only the low eight bits are written.
pub open spec fn line_control_flushed(uart_index: usize, t: Seq<Access>) -> bool {
    &&& t.len() == 2
    &&& t[0] is Read
    &&& t[0] == load(uart_index, UartRegister::LineControl, 1, t[0]->Read_value)
    &&& t[1] == store(
        uart_index,
        UartRegister::LineControl,
        1,
        flushed_line_control(t[0]->Read_value & 0xFF),
    )
}

/// `t` starts by loading the control register and storing it back switched off.
pub open spec fn switched_off(uart_index: usize, t: Seq<Access>) -> bool {
    &&& t.len() >= 2
    &&& t[0] is Read
    &&& t[0] == load(uart_index, UartRegister::Control, 2, t[0]->Read_value)
    &&& t[1] == store(
        uart_index,
        UartRegister::Control,
        2,
        disabled_control(t[0]->Read_value & 0xFFFF),
    )
}

/// The disabling step, completed: switch the UART off, wait until the
/// transmitter is idle, then load the line-control register and store it back
/// with the FIFOs switched off.
pub open spec fn disabling_done(uart_index: usize, limit: nat, t: Seq<Access>) -> bool {
    &&& t.len() >= 5
    &&& switched_off(uart_index, t)
    &&& waited_until_idle(uart_index, limit, t.subrange(2, t.len() - 2))
    &&& t[t.len() - 2] is Read
    &&& t[t.len() - 2] == load(
        uart_index,
        UartRegister::LineControl,
        1,
        t[t.len() - 2]->Read_value,
    )
    &&& t[t.len() - 1] == store(
        uart_index,
        UartRegister::LineControl,
        1,
        flushed_line_control(t[t.len() - 2]->Read_value & 0xFF),
    )
}

/// The disabling step, abandoned: the UART was switched off, but the
/// transmitter stayed busy for the whole poll budget.
pub open spec fn disabling_gave_up(uart_index: usize, limit: nat, t: Seq<Access>) -> bool {
    &&& switched_off(uart_index, t)
    &&& gave_up_waiting(uart_index, limit, t.subrange(2, t.len() as int))
}

/// The enabling step and its outcome: load the control register; if the UART
/// is already enabled, stop there; otherwise store it enabled, load it again,
/// and succeed only if it reads back as stored.
pub open spec fn enabling(
    uart_index: usize,
    mode: TransmitMode,
    t: Seq<Access>,
    r: Result<(), DriverError>,
) -> bool {
    let cr = t[0]->Read_value & 0xFFFF;
    &&& t.len() >= 1
    &&& t[0] is Read
    &&& t[0] == load(uart_index, UartRegister::Control, 2, t[0]->Read_value)
    &&& if cr & 1 != 0 {
        t.len() == 1 && r == Err::<(), DriverError>(DriverError::AlreadyEnabled)
    } else {
        &&& t.len() == 3
        &&& t[1] == store(uart_index, UartRegister::Control, 2, enabled_control(cr, mode))
        &&& t[2] is Read
        &&& t[2] == load(uart_index, UartRegister::Control, 2, t[2]->Read_value)
        &&& r == if t[2]->Read_value & 0xFFFF == enabled_control(cr, mode) {
            Ok::<(), DriverError>(())
        } else {
            Err(DriverError::VerificationFailed)
        }
    }
}

/// After disabling: the line-control store, then, for a nonzero baud rate,
/// the two divisor stores and the enabling step.
pub open spec fn configured_and_enabled(cfg: UartConfig, u: Seq<Access>, r: Result<(), DriverError>) -> bool {
    let i = cfg.uart_index;
    &&& u.len() >= 1
    &&& u[0] == store(
        i,
        UartRegister::LineControl,
        1,
        line_control_byte(
            cfg.word_length,
            cfg.fifo_enable_mode,
            cfg.parity_enable_mode,
            cfg.stick_parity_enable_mode,
            cfg.stop_bit_mode,
        ),
    )
    &&& if cfg.baud_rate == 0 {
        u.len() == 1 && r == Err::<(), DriverError>(DriverError::InvalidBaudRate)
    } else {
        &&& u.len() >= 3
        &&& u[1] == store(
            i,
            UartRegister::IntegerBaudRate,
            2,
            (integer_divisor(cfg.baud_rate as nat) as u64) & 0xFFFF,
        )
        &&& u[2] == store(
            i,
            UartRegister::FractionalBaudRate,
            1,
            (fractional_divisor(cfg.baud_rate as nat) as u64) & 0x3F,
        )
        &&& enabling(i, cfg.transmit_mode, u.subrange(3, u.len() as int), r)
    }
}

/// After the running check: disabling, then the line-control store, the
/// divisor stores and the enabling step; a failing step ends the sequence where
/// it fails.
pub open spec fn reconfigured(cfg: UartConfig, limit: nat, t: Seq<Access>, r: Result<(), DriverError>) -> bool {
    let i = cfg.uart_index;
    ||| (r == Err::<(), DriverError>(DriverError::WaitExhausted) && disabling_gave_up(i, limit, t))
    ||| exists|k: int|
        0 <= k <= t.len() && disabling_done(i, limit, #[trigger] t.subrange(0, k))
            && configured_and_enabled(cfg, t.subrange(k, t.len() as int), r)
}

/// The accesses `t` of a bring-up of `cfg` with poll budget `limit`, and its
/// outcome. An invalid index is refused before any access. Otherwise the
/// control register is loaded first: a UART that is already running is refused
/// with `AlreadyEnabled` and left untouched. Then the steps run in their fixed
/// order (disable, line control, baud rate, enable), and a failing step ends
/// the sequence where it fails.
pub open spec fn bring_up(cfg: UartConfig, limit: nat, t: Seq<Access>, r: Result<(), DriverError>) -> bool {
    let i = cfg.uart_index;
    if i >= UART_COUNT {
        r == Err::<(), DriverError>(DriverError::InvalidIndex) && t.len() == 0
    } else {
        &&& t.len() >= 1
        &&& t[0] is Read
        &&& t[0] == load(i, UartRegister::Control, 2, t[0]->Read_value)
        &&& if (t[0]->Read_value & 0xFFFF) & 1 != 0 {
            t.len() == 1 && r == Err::<(), DriverError>(DriverError::AlreadyEnabled)
        } else {
            reconfigured(cfg, limit, t.subrange(1, t.len() as int), r)
        }
    }
}

/// The outcome of a bring-up, without the handle.
pub open spec fn outcome(r: Result<UartInstance, DriverError>) -> Result<(), DriverError> {
    match r {
        Ok(_) => Ok(()),
        Err(e) => Err(e),
    }
}

/// Bring-up on a UART that is already running (its control register shows the
/// enable bit) fails with `AlreadyEnabled` after that single load, storing
/// nothing.
pub proof fn lemma_running_instance_is_left_alone(
    cfg: UartConfig,
    limit: nat,
    t: Seq<Access>,
    r: Result<(), DriverError>,
)
    requires
        bring_up(cfg, limit, t, r),
        cfg.uart_index < UART_COUNT,
        (t[0]->Read_value & 0xFFFF) & 1 != 0,
    ensures
        r == Err::<(), DriverError>(DriverError::AlreadyEnabled),
        t == seq![load(cfg.uart_index, UartRegister::Control, 2, t[0]->Read_value)],
{
    assert(t =~= seq![t[0]]);
}

/// A bring-up that fails with `AlreadyEnabled` ended with a load of the control
/// register that saw the enable bit set, and stored nothing after it.
pub proof fn lemma_already_enabled_stops_at_the_check(cfg: UartConfig, limit: nat, t: Seq<Access>)
    requires
        bring_up(cfg, limit, t, Err(DriverError::AlreadyEnabled)),
    ensures
        cfg.uart_index < UART_COUNT,
        t.len() > 0,
        t.last() is Read,
        t.last() == load(cfg.uart_index, UartRegister::Control, 2, t.last()->Read_value),
        (t.last()->Read_value & 0xFFFF) & 1 != 0,
{
    let i = cfg.uart_index;
    if (t[0]->Read_value & 0xFFFF) & 1 == 0 {
        let v = t.subrange(1, t.len() as int);
        let k = choose|k: int|
            0 <= k <= v.len() && disabling_done(i, limit, #[trigger] v.subrange(0, k))
                && configured_and_enabled(
                cfg,
                v.subrange(k, v.len() as int),
                Err(DriverError::AlreadyEnabled),
            );
        let u = v.subrange(k, v.len() as int);
        let e = u.subrange(3, u.len() as int);
        assert(e.len() == 1);
        assert(t.last() == e[0]);
    }
}

/// Bring-up with a baud rate of zero never stores a divisor and never enables
/// the UART: it fails, with `InvalidBaudRate` right after the line-control store
/// unless an earlier step failed first.
pub proof fn lemma_zero_baud_rate_is_refused(
    cfg: UartConfig,
    limit: nat,
    t: Seq<Access>,
    r: Result<(), DriverError>,
)
    requires
        bring_up(cfg, limit, t, r),
        cfg.baud_rate == 0,
    ensures
        r is Err,
        r->Err_0 == DriverError::InvalidBaudRate || r->Err_0 == DriverError::InvalidIndex
            || r->Err_0 == DriverError::AlreadyEnabled || r->Err_0 == DriverError::WaitExhausted,
        r->Err_0 == DriverError::InvalidBaudRate ==> t.last() == store(
            cfg.uart_index,
            UartRegister::LineControl,
            1,
            line_control_byte(
                cfg.word_length,
                cfg.fifo_enable_mode,
                cfg.parity_enable_mode,
                cfg.stick_parity_enable_mode,
                cfg.stop_bit_mode,
            ),
        ),
{
    let i = cfg.uart_index;
    if i < UART_COUNT && (t[0]->Read_value & 0xFFFF) & 1 == 0 && !(r == Err::<(), DriverError>(
        DriverError::WaitExhausted,
    ) && disabling_gave_up(i, limit, t.subrange(1, t.len() as int))) {
        let v = t.subrange(1, t.len() as int);
        let k = choose|k: int|
            0 <= k <= v.len() && disabling_done(i, limit, #[trigger] v.subrange(0, k))
                && configured_and_enabled(cfg, v.subrange(k, v.len() as int), r);
        let u = v.subrange(k, v.len() as int);
        assert(u.len() == 1);
        assert(t.last() == u[0]);
    }
}

/// A bring-up fails with `InvalidBaudRate` only for a baud rate of zero.
pub proof fn lemma_only_zero_baud_rate_is_refused(cfg: UartConfig, limit: nat, t: Seq<Access>)
    requires
        bring_up(cfg, limit, t, Err(DriverError::InvalidBaudRate)),
    ensures
        cfg.baud_rate == 0,
{
    let i = cfg.uart_index;
    let v = t.subrange(1, t.len() as int);
    let k = choose|k: int|
        0 <= k <= v.len() && disabling_done(i, limit, #[trigger] v.subrange(0, k))
            && configured_and_enabled(cfg, v.subrange(k, v.len() as int), Err(DriverError::InvalidBaudRate));
}

/// The bytes stored to the data register of UART `uart_index` in `t`, in order.
pub open spec fn data_stores(uart_index: usize, t: Seq<Access>) -> Seq<u64>
    decreases t.len(),
{
    if t.len() == 0 {
        Seq::empty()
    } else if is_data_store(uart_index, t.last()) {
        data_stores(uart_index, t.drop_last()).push(t.last()->Write_value)
    } else {
        data_stores(uart_index, t.drop_last())
    }
}

/// `a` is a one-byte store to the data register of UART `uart_index`.
pub open spec fn is_data_store(uart_index: usize, a: Access) -> bool {
    a is Write && a == store(uart_index, UartRegister::Data, 1, a->Write_value)
}

/// Every access of `t` is a flag load or a data store, and each data store
/// comes right after a flag load that saw room in the transmit FIFO.
pub open spec fn paced_transmission(uart_index: usize, t: Seq<Access>) -> bool {
    &&& forall|k: int|
        0 <= k < t.len() ==> is_flag_load(uart_index, #[trigger] t[k]) || is_data_store(
            uart_index,
            t[k],
        )
    &&& forall|k: int|
        0 <= k < t.len() && is_data_store(uart_index, #[trigger] t[k]) ==> k > 0 && is_flag_load(
            uart_index,
            t[k - 1],
        ) && !flags_seen(t[k - 1]).txff
}

/// The bytes of `b`, widened.
pub open spec fn widened(b: Seq<u8>) -> Seq<u64> {
    b.map_values(|x: u8| x as u64)
}

proof fn lemma_added_push(a: Seq<Access>, b: Seq<Access>, x: Access)
    requires
        extends(a, b),
    ensures
        extends(a, b.push(x)),
        added(a, b.push(x)) == added(a, b).push(x),
{
    lemma_push_extends(b, x);
    lemma_extends_trans(a, b, b.push(x));
    assert(added(a, b) + seq![x] =~= added(a, b).push(x));
}

/// `a` is a flag load that saw room in the transmit FIFO.
pub open spec fn saw_room(uart_index: usize, a: Access) -> bool {
    is_flag_load(uart_index, a) && !flags_seen(a).txff
}

/// How many flag loads `t` ends with.
pub open spec fn trailing_polls(uart_index: usize, t: Seq<Access>) -> nat
    decreases t.len(),
{
    if t.len() == 0 {
        0
    } else if is_flag_load(uart_index, t.last()) {
        trailing_polls(uart_index, t.drop_last()) + 1
    } else {
        0
    }
}

/// The last `n` accesses of `t` are flag loads that saw the transmit FIFO full.
pub open spec fn full_tail(uart_index: usize, t: Seq<Access>, n: nat) -> bool {
    &&& n <= t.len()
    &&& forall|k: int|
        t.len() - n <= k < t.len() ==> is_flag_load(uart_index, #[trigger] t[k]) && flags_seen(
            t[k],
        ).txff
}

/// Each wait for room in the transmit FIFO stops at the first flag load that
/// saw room, and the data store follows it at once; no wait takes more than
/// `limit` flag loads.
pub open spec fn waits_for_room(uart_index: usize, limit: nat, t: Seq<Access>) -> bool {
    &&& forall|k: int|
        0 <= k < t.len() && saw_room(uart_index, #[trigger] t[k]) ==> k + 1 < t.len()
            && is_data_store(uart_index, t[k + 1])
    &&& forall|k: int| 0 <= k <= t.len() ==> trailing_polls(uart_index, #[trigger] t.subrange(0, k)) <= limit
}

/// What holds between two bytes, and while waiting: the accesses so far are
/// paced, every flag load that saw room but the last is followed by its data
/// store, and no wait has gone over the budget.
pub open spec fn transmission_so_far(uart_index: usize, limit: nat, t: Seq<Access>) -> bool {
    &&& paced_transmission(uart_index, t)
    &&& forall|k: int|
        0 <= k && k + 1 < t.len() && saw_room(uart_index, #[trigger] t[k]) ==> is_data_store(
            uart_index,
            t[k + 1],
        )
    &&& forall|k: int| 0 <= k <= t.len() ==> trailing_polls(uart_index, #[trigger] t.subrange(0, k)) <= limit
}

proof fn lemma_empty_transmission(uart_index: usize, limit: nat)
    ensures
        transmission_so_far(uart_index, limit, Seq::<Access>::empty()),
        trailing_polls(uart_index, Seq::<Access>::empty()) == 0,
{
    let t = Seq::<Access>::empty();
    assert forall|k: int| 0 <= k <= t.len() implies trailing_polls(uart_index, #[trigger] t.subrange(0, k)) <= limit by {
        assert(t.subrange(0, k) =~= t);
    }
}

proof fn lemma_prefixes_push(uart_index: usize, limit: nat, t: Seq<Access>, x: Access)
    requires
        forall|k: int| 0 <= k <= t.len() ==> trailing_polls(uart_index, #[trigger] t.subrange(0, k)) <= limit,
        trailing_polls(uart_index, t.push(x)) <= limit,
    ensures
        forall|k: int|
            0 <= k <= t.push(x).len() ==> trailing_polls(uart_index, #[trigger] t.push(x).subrange(0, k))
                <= limit,
{
    let t1 = t.push(x);
    assert forall|k: int| 0 <= k <= t1.len() implies trailing_polls(uart_index, #[trigger] t1.subrange(0, k)) <= limit by {
        if k <= t.len() {
            assert(t1.subrange(0, k) =~= t.subrange(0, k));
        } else {
            assert(t1.subrange(0, k) =~= t1);
        }
    }
}

/// Appending a flag load while waiting for room.
proof fn lemma_push_flag_load(uart_index: usize, limit: nat, t: Seq<Access>, x: Access)
    requires
        transmission_so_far(uart_index, limit, t),
        trailing_polls(uart_index, t) < limit,
        trailing_polls(uart_index, t) > 0 ==> full_tail(uart_index, t, trailing_polls(uart_index, t)),
        is_flag_load(uart_index, x),
    ensures
        transmission_so_far(uart_index, limit, t.push(x)),
        trailing_polls(uart_index, t.push(x)) == trailing_polls(uart_index, t) + 1,
        trailing_polls(uart_index, t.push(x)) <= t.push(x).len(),
        data_stores(uart_index, t.push(x)) == data_stores(uart_index, t),
        flags_seen(x).txff ==> full_tail(uart_index, t.push(x), trailing_polls(uart_index, t) + 1),
{
    let t1 = t.push(x);
    assert(t1.drop_last() =~= t);
    assert(t1.last() == x);
    lemma_trailing_polls_bounded(uart_index, t);
    lemma_prefixes_push(uart_index, limit, t, x);
    assert forall|k: int|
        0 <= k < t1.len() && is_data_store(uart_index, #[trigger] t1[k]) implies k > 0
        && is_flag_load(uart_index, t1[k - 1]) && !flags_seen(t1[k - 1]).txff by {
        assert(t1[k] == t[k]);
        assert(t1[k - 1] == t[k - 1]);
    }
    assert forall|k: int| 0 <= k < t1.len() implies is_flag_load(uart_index, #[trigger] t1[k])
        || is_data_store(uart_index, t1[k]) by {
        if k < t.len() {
            assert(t1[k] == t[k]);
        }
    }
    assert forall|k: int|
        0 <= k && k + 1 < t1.len() && saw_room(uart_index, #[trigger] t1[k]) implies is_data_store(
        uart_index,
        t1[k + 1],
    ) by {
        assert(t1[k] == t[k]);
        if k + 1 < t.len() {
            assert(t1[k + 1] == t[k + 1]);
        } else {
            assert(t[k] == t.last());
        }
    }
    let n = trailing_polls(uart_index, t) + 1;
    if flags_seen(x).txff {
        assert forall|k: int| t1.len() - n <= k < t1.len() implies is_flag_load(
            uart_index,
            #[trigger] t1[k],
        ) && flags_seen(t1[k]).txff by {
            if k < t.len() {
                assert(t1[k] == t[k]);
            }
        }
    }
}

proof fn lemma_trailing_polls_bounded(uart_index: usize, t: Seq<Access>)
    ensures
        trailing_polls(uart_index, t) <= t.len(),
    decreases t.len(),
{
    if t.len() > 0 {
        lemma_trailing_polls_bounded(uart_index, t.drop_last());
    }
}

/// Appending the data store that follows a flag load that saw room.
proof fn lemma_push_data_store(uart_index: usize, limit: nat, t: Seq<Access>, x: Access)
    requires
        transmission_so_far(uart_index, limit, t),
        t.len() > 0,
        saw_room(uart_index, t.last()),
        is_data_store(uart_index, x),
    ensures
        transmission_so_far(uart_index, limit, t.push(x)),
        trailing_polls(uart_index, t.push(x)) == 0,
        data_stores(uart_index, t.push(x)) == data_stores(uart_index, t).push(x->Write_value),
        !saw_room(uart_index, t.push(x).last()),
{
    let t1 = t.push(x);
    assert(t1.drop_last() =~= t);
    assert(t1.last() == x);
    lemma_prefixes_push(uart_index, limit, t, x);
    assert forall|k: int|
        0 <= k < t1.len() && is_data_store(uart_index, #[trigger] t1[k]) implies k > 0
        && is_flag_load(uart_index, t1[k - 1]) && !flags_seen(t1[k - 1]).txff by {
        if k < t.len() {
            assert(t1[k] == t[k]);
            assert(t1[k - 1] == t[k - 1]);
        } else {
            assert(t1[k - 1] == t.last());
        }
    }
    assert forall|k: int| 0 <= k < t1.len() implies is_flag_load(uart_index, #[trigger] t1[k])
        || is_data_store(uart_index, t1[k]) by {
        if k < t.len() {
            assert(t1[k] == t[k]);
        }
    }
    assert forall|k: int|
        0 <= k && k + 1 < t1.len() && saw_room(uart_index, #[trigger] t1[k]) implies is_data_store(
        uart_index,
        t1[k + 1],
    ) by {
        assert(t1[k] == t[k]);
        if k + 1 < t.len() {
            assert(t1[k + 1] == t[k + 1]);
        }
    }
}

/// A UART that bring-up has enabled.
pub struct UartInstance {
    uart_index: usize,
}

impl UartInstance {
    /// The instance index this handle drives.
    pub closed spec fn index(&self) -> usize {
        self.uart_index
    }

    pub open spec fn wf(&self) -> bool {
        self.index() < UART_COUNT
    }

    /// Loads the line-control register and stores it back with the FIFOs
    /// switched off.
    pub fn disable_fifos<P: MemoryPort>(bus: &mut Bus<P>, uart_index: usize) -> (r: Result<(), DriverError>)
        ensures
            extends(old(bus).accesses(), final(bus).accesses()),
            uart_index >= UART_COUNT ==> r == Err::<(), DriverError>(DriverError::InvalidIndex)
                && final(bus).accesses() == old(bus).accesses(),
            uart_index < UART_COUNT ==> r is Ok && line_control_flushed(
                uart_index,
                added(old(bus).accesses(), final(bus).accesses()),
            ),
            final(bus).poll_limit() == old(bus).poll_limit(),
    {
        let ghost s0 = bus.accesses();
        proof {
            lemma_low_mask_values();
            lemma_extends_same(s0);
        }
        let lcr = UartRegister::LineControl.definition();
        let state = match lcr.read(bus, uart_index, lcr.bit_width) {
            Ok(result) => result.value,
            Err(e) => {
                return Err(e);
            },
        };
        let ghost s1 = bus.accesses();
        let new_state = state & !(1u64 << 4u64);
        assert(1u64 << 4u64 == 0x10) by (bit_vector);
        // Bits 8 to 15 are reserved: only the low eight bits are written.
        let w = lcr.write(bus, uart_index, new_state, 8);
        proof {
            let raw = s1.last()->Read_value;
            assert(((raw & 0xFF) & !0x10u64) & 0xFF == (raw & 0xFF) & !0x10u64) by (bit_vector);
            lemma_push_extends(s0, s1.last());
            assert(s1 =~= s0.push(s1.last()));
            lemma_push_extends(s1, bus.accesses().last());
            assert(bus.accesses() =~= s1.push(bus.accesses().last()));
            lemma_extends_trans(s0, s1, bus.accesses());
        }
        match w {
            Ok(_) => Ok(()),
            Err(e) => Err(e),
        }
    }

    /// Switches the UART off, waits for the last transmission to finish, then
    /// flushes the FIFOs by disabling them.
    pub fn disable_uart<P: MemoryPort>(bus: &mut Bus<P>, uart_index: usize) -> (r: Result<(), DriverError>)
        ensures
            extends(old(bus).accesses(), final(bus).accesses()),
            uart_index >= UART_COUNT ==> r == Err::<(), DriverError>(DriverError::InvalidIndex)
                && final(bus).accesses() == old(bus).accesses(),
            uart_index < UART_COUNT && r is Ok ==> disabling_done(
                uart_index,
                old(bus).poll_limit(),
                added(old(bus).accesses(), final(bus).accesses()),
            ),
            uart_index < UART_COUNT && r is Err ==> r->Err_0 == DriverError::WaitExhausted
                && disabling_gave_up(
                uart_index,
                old(bus).poll_limit(),
                added(old(bus).accesses(), final(bus).accesses()),
            ),
            final(bus).poll_limit() == old(bus).poll_limit(),
    {
        let ghost s0 = bus.accesses();
        proof {
            lemma_low_mask_values();
            lemma_extends_same(s0);
        }
        let cr = UartRegister::Control.definition();
        let current = match cr.read(bus, uart_index, cr.bit_width) {
            Ok(result) => result.value,
            Err(e) => {
                return Err(e);
            },
        };
        let ghost s1 = bus.accesses();
        // Bit 0 enables the UART, bits 8 and 9 its transmitter and receiver.
        let mut disable_value = current & !0x1u64;
        disable_value = disable_value & !(1u64 << 8u64);
        disable_value = disable_value & !(1u64 << 9u64);
        proof {
            let raw = s1.last()->Read_value;
            assert(((((raw & 0xFFFF) & !0x1u64) & !(1u64 << 8u64)) & !(1u64 << 9u64)) & 0xFFFF
                == (raw & 0xFFFF) & !0x301u64) by (bit_vector);
        }
        match cr.write(bus, uart_index, disable_value, cr.bit_width) {
            Ok(_) => {},
            Err(e) => {
                return Err(e);
            },
        }
        let ghost s2 = bus.accesses();
        proof {
            lemma_push_extends(s0, s1.last());
            assert(s1 =~= s0.push(s1.last()));
            lemma_push_extends(s1, s2.last());
            assert(s2 =~= s1.push(s2.last()));
            lemma_extends_trans(s0, s1, s2);
        }
        let waited = busy_wait_last_transmit(bus, uart_index);
        let ghost s3 = bus.accesses();
        proof {
            lemma_extends_trans(s0, s2, s3);
            let t = added(s0, s3);
            assert(t.subrange(2, t.len() as int) =~= added(s2, s3));
        }
        match waited {
            Ok(_) => {},
            Err(e) => {
                return Err(e);
            },
        }
        let flushed = Self::disable_fifos(bus, uart_index);
        proof {
            let s4 = bus.accesses();
            lemma_extends_trans(s0, s3, s4);
            let t = added(s0, s4);
            assert(t.subrange(2, t.len() - 2) =~= added(s2, s3));
        }
        flushed
    }

    /// Stores the line-control byte of the given frame format.
    pub fn configure_line_control<P: MemoryPort>(
        bus: &mut Bus<P>,
        uart_index: usize,
        word_length: WordLength,
        fifo_enable_mode: FIFOEnableMode,
        parity_enable_mode: ParityEnableMode,
        stick_parity_enable_mode: StickParityEnableMode,
        stop_bit_mode: StopBitMode,
    ) -> (r: Result<(), DriverError>)
        ensures
            extends(old(bus).accesses(), final(bus).accesses()),
            uart_index >= UART_COUNT ==> r == Err::<(), DriverError>(DriverError::InvalidIndex)
                && final(bus).accesses() == old(bus).accesses(),
            uart_index < UART_COUNT ==> r is Ok && added(old(bus).accesses(), final(bus).accesses())
                == seq![
                store(
                    uart_index,
                    UartRegister::LineControl,
                    1,
                    line_control_byte(
                        word_length,
                        fifo_enable_mode,
                        parity_enable_mode,
                        stick_parity_enable_mode,
                        stop_bit_mode,
                    ),
                ),
            ],
            final(bus).poll_limit() == old(bus).poll_limit(),
    {
        let value = line_control_value(
            word_length,
            fifo_enable_mode,
            parity_enable_mode,
            stick_parity_enable_mode,
            stop_bit_mode,
        );
        proof {
            lemma_low_mask_values();
            assert(value & 0xFF == value) by (bit_vector)
                requires
                    value < 256,
            ;
            lemma_extends_same(bus.accesses());
            lemma_push_extends(
                bus.accesses(),
                store(uart_index, UartRegister::LineControl, 1, value),
            );
        }
        let lcr = UartRegister::LineControl.definition();
        // Bits 8 to 15 are reserved: only the low eight bits are written.
        match lcr.write(bus, uart_index, value, 8) {
            Ok(_) => Ok(()),
            Err(e) => Err(e),
        }
    }

    /// Refuses a baud rate of zero, then stores the integer and fractional
    /// divisors, each cut to its register's width.
    pub fn set_baud_rate<P: MemoryPort>(bus: &mut Bus<P>, uart_index: usize, baud_rate: usize) -> (r:
        Result<(), DriverError>)
        ensures
            extends(old(bus).accesses(), final(bus).accesses()),
            baud_rate == 0 ==> r == Err::<(), DriverError>(DriverError::InvalidBaudRate)
                && final(bus).accesses() == old(bus).accesses(),
            baud_rate > 0 && uart_index >= UART_COUNT ==> r == Err::<(), DriverError>(
                DriverError::InvalidIndex,
            ) && final(bus).accesses() == old(bus).accesses(),
            baud_rate > 0 && uart_index < UART_COUNT ==> r is Ok && added(old(bus).accesses(), final(bus).accesses()) == seq![
                store(
                    uart_index,
                    UartRegister::IntegerBaudRate,
                    2,
                    (integer_divisor(baud_rate as nat) as u64) & 0xFFFF,
                ),
                store(
                    uart_index,
                    UartRegister::FractionalBaudRate,
                    1,
                    (fractional_divisor(baud_rate as nat) as u64) & 0x3F,
                ),
            ],
            final(bus).poll_limit() == old(bus).poll_limit(),
    {
        let ghost s0 = bus.accesses();
        proof {
            lemma_extends_same(s0);
        }
        let (ibrd, fbrd) = match baud_rate_divisors(baud_rate) {
            Ok(d) => d,
            Err(e) => {
                return Err(e);
            },
        };
        proof {
            lemma_low_mask_values();
        }
        let ibrd_reg = UartRegister::IntegerBaudRate.definition();
        let fbrd_reg = UartRegister::FractionalBaudRate.definition();
        match ibrd_reg.write(bus, uart_index, ibrd, ibrd_reg.bit_width) {
            Ok(_) => {},
            Err(e) => {
                return Err(e);
            },
        }
        let ghost s1 = bus.accesses();
        let w = fbrd_reg.write(bus, uart_index, fbrd, fbrd_reg.bit_width);
        proof {
            let s2 = bus.accesses();
            lemma_push_extends(s0, s1.last());
            assert(s1 =~= s0.push(s1.last()));
            lemma_push_extends(s1, s2.last());
            assert(s2 =~= s1.push(s2.last()));
            lemma_extends_trans(s0, s1, s2);
            assert(added(s0, s2) =~= seq![s1.last(), s2.last()]);
        }
        match w {
            Ok(_) => Ok(()),
            Err(e) => Err(e),
        }
    }

    /// Sets the transmit and receive enables as `transmit_mode` asks, then the
    /// UART enable, and checks that the control register took the value.
    pub fn enable_uart<P: MemoryPort>(bus: &mut Bus<P>, uart_index: usize, transmit_mode: TransmitMode) -> (r:
        Result<(), DriverError>)
        ensures
            extends(old(bus).accesses(), final(bus).accesses()),
            uart_index >= UART_COUNT ==> r == Err::<(), DriverError>(DriverError::InvalidIndex)
                && final(bus).accesses() == old(bus).accesses(),
            uart_index < UART_COUNT ==> enabling(uart_index, transmit_mode, added(old(bus).accesses(), final(bus).accesses()), r),
            final(bus).poll_limit() == old(bus).poll_limit(),
    {
        let ghost s0 = bus.accesses();
        proof {
            lemma_low_mask_values();
            lemma_extends_same(s0);
        }
        let cr = UartRegister::Control.definition();
        let current = match cr.read(bus, uart_index, cr.bit_width) {
            Ok(result) => result.value,
            Err(e) => {
                return Err(e);
            },
        };
        let ghost s1 = bus.accesses();
        proof {
            lemma_push_extends(s0, s1.last());
            assert(s1 =~= s0.push(s1.last()));
        }
        // Bit 0: somebody else may have enabled the UART while it was being set up.
        if current & 0x1u64 != 0 {
            return Err(DriverError::AlreadyEnabled);
        }
        let mut new_value = current;
        match transmit_mode {
            TransmitMode::TxOnly => {
                new_value = new_value | (1u64 << 8u64);
                new_value = new_value & !(1u64 << 9u64);
            },
            TransmitMode::RxOnly => {
                new_value = new_value & !(1u64 << 8u64);
                new_value = new_value | (1u64 << 9u64);
            },
            TransmitMode::Bidirectional => {
                new_value = new_value | (1u64 << 8u64);
                new_value = new_value | (1u64 << 9u64);
            },
        }
        new_value = new_value | 0x1;
        proof {
            let c = current;
            let raw = s1.last()->Read_value;
            assert(c <= 0xFFFF) by (bit_vector)
                requires
                    c == raw & 0xFFFF,
            ;
            assert((((c | (1u64 << 8u64)) & !(1u64 << 9u64)) | 0x1) == ((c | 0x100) & !0x200u64)
                | 0x1) by (bit_vector);
            assert((((c & !(1u64 << 8u64)) | (1u64 << 9u64)) | 0x1) == ((c & !0x100u64) | 0x200)
                | 0x1) by (bit_vector);
            assert((((c | (1u64 << 8u64)) | (1u64 << 9u64)) | 0x1) == c | 0x301) by (bit_vector);
            assert((((c | 0x100) & !0x200u64) | 0x1) & 0xFFFF == ((c | 0x100) & !0x200u64) | 0x1)
                by (bit_vector)
                requires
                    c <= 0xFFFF,
            ;
            assert((((c & !0x100u64) | 0x200) | 0x1) & 0xFFFF == ((c & !0x100u64) | 0x200) | 0x1)
                by (bit_vector)
                requires
                    c <= 0xFFFF,
            ;
            assert((c | 0x301) & 0xFFFF == c | 0x301) by (bit_vector)
                requires
                    c <= 0xFFFF,
            ;
        }
        match cr.write(bus, uart_index, new_value, cr.bit_width) {
            Ok(_) => {},
            Err(e) => {
                return Err(e);
            },
        }
        let ghost s2 = bus.accesses();
        let read_back = match cr.read(bus, uart_index, cr.bit_width) {
            Ok(result) => result.value,
            Err(e) => {
                return Err(e);
            },
        };
        proof {
            let s3 = bus.accesses();
            lemma_push_extends(s1, s2.last());
            assert(s2 =~= s1.push(s2.last()));
            lemma_push_extends(s2, s3.last());
            assert(s3 =~= s2.push(s3.last()));
            lemma_extends_trans(s0, s1, s2);
            lemma_extends_trans(s0, s2, s3);
            assert(added(s0, s3) =~= seq![s1.last(), s2.last(), s3.last()]);
        }
        if read_back == new_value {
            Ok(())
        } else {
            Err(DriverError::VerificationFailed)
        }
    }

    /// Brings up the UART that `builder` names: disable, line control, baud
    /// rate, enable.
    fn new<P: MemoryPort>(builder: InstanceBuilder, bus: &mut Bus<P>) -> (r: Result<UartInstance, DriverError>)
        ensures
            extends(old(bus).accesses(), final(bus).accesses()),
            bring_up(
                builder@,
                old(bus).poll_limit(),
                added(old(bus).accesses(), final(bus).accesses()),
                outcome(r),
            ),
            r is Ok ==> r->Ok_0.wf() && r->Ok_0.index() == builder@.uart_index,
            final(bus).poll_limit() == old(bus).poll_limit(),
    {
        let ghost s0 = bus.accesses();
        let cfg = builder.config;
        let i = cfg.uart_index;
        proof {
            lemma_extends_same(s0);
            lemma_low_mask_values();
        }
        if i >= UART_COUNT {
            return Err(DriverError::InvalidIndex);
        }
        // A running UART belongs to someone: leave it alone.
        let cr = UartRegister::Control.definition();
        let current = match cr.read(bus, i, cr.bit_width) {
            Ok(result) => result.value,
            Err(e) => {
                return Err(e);
            },
        };
        let ghost s1 = bus.accesses();
        proof {
            lemma_push_extends(s0, s1.last());
            assert(s1 =~= s0.push(s1.last()));
        }
        if current & 0x1u64 != 0 {
            return Err(DriverError::AlreadyEnabled);
        }
        let r = Self::reconfigure(cfg, bus);
        proof {
            let s2 = bus.accesses();
            lemma_extends_trans(s0, s1, s2);
            let t = added(s0, s2);
            assert(t.subrange(1, t.len() as int) =~= added(s1, s2));
        }
        match r {
            Ok(_) => Ok(UartInstance { uart_index: i }),
            Err(e) => Err(e),
        }
    }

    /// Disables the UART, programs its line control and baud rate, and
    /// enables it.
    fn reconfigure<P: MemoryPort>(cfg: UartConfig, bus: &mut Bus<P>) -> (r: Result<(), DriverError>)
        requires
            cfg.uart_index < UART_COUNT,
        ensures
            extends(old(bus).accesses(), final(bus).accesses()),
            reconfigured(
                cfg,
                old(bus).poll_limit(),
                added(old(bus).accesses(), final(bus).accesses()),
                r,
            ),
            final(bus).poll_limit() == old(bus).poll_limit(),
    {
        let ghost s0 = bus.accesses();
        let i = cfg.uart_index;
        match Self::disable_uart(bus, i) {
            Ok(_) => {},
            Err(e) => {
                return Err(e);
            },
        }
        let ghost s1 = bus.accesses();
        let configured = Self::configure_line_control(
            bus,
            i,
            cfg.word_length,
            cfg.fifo_enable_mode,
            cfg.parity_enable_mode,
            cfg.stick_parity_enable_mode,
            cfg.stop_bit_mode,
        );
        let ghost s2 = bus.accesses();
        proof {
            lemma_extends_trans(s0, s1, s2);
        }
        match configured {
            Ok(_) => {},
            Err(e) => {
                return Err(e);
            },
        }
        let baud = Self::set_baud_rate(bus, i, cfg.baud_rate);
        let ghost s3 = bus.accesses();
        proof {
            lemma_extends_trans(s0, s2, s3);
            lemma_extends_trans(s1, s2, s3);
            let t = added(s0, s3);
            let k = added(s0, s1).len() as int;
            assert(t.subrange(0, k) =~= added(s0, s1));
            if cfg.baud_rate == 0 {
                assert(s3 == s2);
                assert(t.subrange(k, t.len() as int) =~= added(s1, s2));
            }
        }
        match baud {
            Ok(_) => {},
            Err(e) => {
                return Err(e);
            },
        }
        let enabled = Self::enable_uart(bus, i, cfg.transmit_mode);
        let ghost s4 = bus.accesses();
        proof {
            lemma_extends_trans(s0, s3, s4);
            lemma_extends_trans(s1, s3, s4);
            lemma_extends_trans(s1, s2, s3);
            let t = added(s0, s4);
            let k = added(s0, s1).len() as int;
            assert(t.subrange(0, k) =~= added(s0, s1));
            let u = t.subrange(k, t.len() as int);
            assert(u =~= added(s1, s4));
            assert(u.subrange(3, u.len() as int) =~= added(s3, s4));
        }
        enabled
    }

    /// Loads the flag register once and decodes it.
    pub fn flags<P: MemoryPort>(&self, bus: &mut Bus<P>) -> (r: Flags)
        requires
            self.wf(),
        ensures
            extends(old(bus).accesses(), final(bus).accesses()),
            final(bus).accesses() == old(bus).accesses().push(final(bus).accesses().last()),
            is_flag_load(self.index(), final(bus).accesses().last()),
            r == flags_seen(final(bus).accesses().last()),
            final(bus).poll_limit() == old(bus).poll_limit(),
    {
        Flags::read(bus, self.uart_index)
    }

    /// Sends `array` byte by byte, each once the transmit FIFO has room; returns
    /// the number of bytes sent. Waiting for room gives up after the poll budget
    /// of the bus, with the bytes before that one already sent.
    pub fn poll_write<P: MemoryPort>(&self, bus: &mut Bus<P>, array: &[u8]) -> (r: Result<usize, DriverError>)
        requires
            self.wf(),
        ensures
            extends(old(bus).accesses(), final(bus).accesses()),
            paced_transmission(self.index(), added(old(bus).accesses(), final(bus).accesses())),
            waits_for_room(
                self.index(),
                old(bus).poll_limit(),
                added(old(bus).accesses(), final(bus).accesses()),
            ),
            array@.len() == 0 ==> r == Ok::<usize, DriverError>(0) && final(bus).accesses()
                == old(bus).accesses(),
            r is Ok ==> r->Ok_0 == array@.len() && data_stores(
                self.index(),
                added(old(bus).accesses(), final(bus).accesses()),
            ) == widened(array@),
            r is Err ==> r->Err_0 == DriverError::WaitExhausted && (exists|n: int|
                0 <= n < array@.len() && data_stores(
                    self.index(),
                    added(old(bus).accesses(), final(bus).accesses()),
                ) == widened(#[trigger] array@.subrange(0, n))) && trailing_polls(
                self.index(),
                added(old(bus).accesses(), final(bus).accesses()),
            ) == old(bus).poll_limit() && full_tail(
                self.index(),
                added(old(bus).accesses(), final(bus).accesses()),
                old(bus).poll_limit(),
            ),
            final(bus).poll_limit() == old(bus).poll_limit(),
    {
        let ghost start = bus.accesses();
        let i = self.uart_index;
        let limit = bus.max_polls();
        let data = UartRegister::Data.definition();
        proof {
            lemma_extends_same(start);
            lemma_low_mask_values();
            assert(widened(array@.subrange(0, 0)) =~= Seq::<u64>::empty());
            lemma_empty_transmission(i, limit as nat);
        }
        let mut idx: usize = 0;
        while idx < array.len()
            invariant
                self.wf(),
                i == self.index(),
                data == UartRegister::Data.spec_definition(),
                limit as nat == bus.poll_limit(),
                bus.poll_limit() == old(bus).poll_limit(),
                start == old(bus).accesses(),
                idx <= array@.len(),
                idx == 0 ==> bus.accesses() == start,
                extends(start, bus.accesses()),
                transmission_so_far(i, limit as nat, added(start, bus.accesses())),
                trailing_polls(i, added(start, bus.accesses())) == 0,
                data_stores(i, added(start, bus.accesses())) == widened(array@.subrange(0, idx as int)),
            decreases array@.len() - idx,
        {
            let byte = array[idx];
            let mut polls: usize = 0;
            let mut room = false;
            while polls < limit && !room
                invariant
                    self.wf(),
                    i == self.index(),
                    limit as nat == bus.poll_limit(),
                    bus.poll_limit() == old(bus).poll_limit(),
                    start == old(bus).accesses(),
                    idx < array@.len(),
                    polls <= limit,
                    extends(start, bus.accesses()),
                    transmission_so_far(i, limit as nat, added(start, bus.accesses())),
                    data_stores(i, added(start, bus.accesses())) == widened(array@.subrange(0, idx as int)),
                    trailing_polls(i, added(start, bus.accesses())) == polls,
                    polls <= added(start, bus.accesses()).len(),
                    room ==> added(start, bus.accesses()).len() > 0 && saw_room(
                        i,
                        added(start, bus.accesses()).last(),
                    ),
                    !room ==> full_tail(i, added(start, bus.accesses()), polls as nat),
                decreases limit - polls,
            {
                let ghost before = bus.accesses();
                let flags = self.flags(bus);
                polls = polls + 1;
                room = !flags.transmit_fifo_full();
                proof {
                    let x = bus.accesses().last();
                    lemma_added_push(start, before, x);
                    lemma_push_flag_load(i, limit as nat, added(start, before), x);
                }
            }
            if !room {
                return Err(DriverError::WaitExhausted);
            }
            let ghost before = bus.accesses();
            let ghost sent = widened(array@.subrange(0, idx as int));
            proof {
                lemma_low_mask_values();
            }
            assert((byte as u64) & 0xFF == byte as u64) by (bit_vector)
                requires
                    byte < 256,
            ;
            match data.write(bus, i, byte as u64, 8) {
                Ok(_) => {},
                Err(e) => {
                    return Err(e);
                },
            }
            proof {
                let x = bus.accesses().last();
                assert(bus.accesses() == before.push(x));
                lemma_added_push(start, before, x);
                assert(x->Write_value == byte as u64);
                assert(is_data_store(i, x));
                lemma_push_data_store(i, limit as nat, added(start, before), x);
                assert(widened(array@.subrange(0, idx + 1)) =~= sent.push(byte as u64));
            }
            idx = idx + 1;
        }
        proof {
            assert(array@.subrange(0, array@.len() as int) =~= array@);
        }
        Ok(array.len())
    }
}

} // verus!