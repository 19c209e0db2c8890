//! The bridge between the USB serial port and the optical port, and its LED.
use vstd::prelude::*;
use vstd::slice::slice_subrange;

verus! {

/// The size of the buffers that the ports are read into.
pub const BUF_SIZE: usize = 32;

/// How long the LED stays on after each transmission, at least, in
/// milliseconds.
pub const LED_MIN_ON_MILLIS: u64 = 10;

/// How waiting for both ports ended.
#[derive(Clone, Copy, Debug)]
pub enum Read {
    /// The USB serial port gave this many bytes.
    Serial(usize),
    /// The optical port gave this many bytes.
    Optical(usize),
    /// One of them could not be read.
    Failed,
}

/// What to pass on.
#[derive(Clone, Copy, Debug)]
pub enum Transfer<'a> {
    /// Write these bytes to the optical port, then signal the LED.
    ToOptical(&'a [u8]),
    /// Write these bytes to the USB serial port.
    ToSerial(&'a [u8]),
    /// Nothing: errors are ignored.
    Nothing,
}

/// The view of a [`Transfer`].
pub enum TransferView {
    ToOptical(Seq<u8>),
    ToSerial(Seq<u8>),
    Nothing,
}

impl<'a> View for Transfer<'a> {
    type V = TransferView;

    open spec fn view(&self) -> TransferView {
        match self {
            Transfer::ToOptical(data) => TransferView::ToOptical(data@),
            Transfer::ToSerial(data) => TransferView::ToSerial(data@),
            Transfer::Nothing => TransferView::Nothing,
        }
    }
}

/// What is passed on after a read into these buffers.
pub open spec fn spec_forward(read: Read, serial_buf: Seq<u8>, opt_buf: Seq<u8>) -> TransferView {
    match read {
        Read::Serial(len) => TransferView::ToOptical(serial_buf.take(len as int)),
        Read::Optical(len) => TransferView::ToSerial(opt_buf.take(len as int)),
        Read::Failed => TransferView::Nothing,
    }
}

/// Whether a read stays within the buffers.
pub open spec fn fits(read: Read, serial_len: nat, opt_len: nat) -> bool {
    match read {
        Read::Serial(len) => len <= serial_len,
        Read::Optical(len) => len <= opt_len,
        Read::Failed => true,
    }
}

/// Decides what to pass on after a read into one of the buffers.
pub fn forward<'a>(
    read: Read,
    serial_buf: &'a [u8; BUF_SIZE],
    opt_buf: &'a [u8; BUF_SIZE],
) -> (res: Transfer<'a>)
    requires
        fits(read, BUF_SIZE as nat, BUF_SIZE as nat),
    ensures
        res@ == spec_forward(read, serial_buf@, opt_buf@),
{
    match read {
        Read::Serial(len) => {
            let data = slice_subrange(serial_buf.as_slice(), 0, len);
            assert(data@ =~= serial_buf@.take(len as int));
            Transfer::ToOptical(data)
        },
        Read::Optical(len) => {
            let data = slice_subrange(opt_buf.as_slice(), 0, len);
            assert(data@ =~= opt_buf@.take(len as int));
            Transfer::ToSerial(data)
        },
        Read::Failed => Transfer::Nothing,
    }
}

/// Whether the LED is signalled with a transfer.
pub fn signals_led(transfer: &Transfer<'_>) -> (res: bool)
    ensures
        res == transfer@ is ToOptical,
{
    match transfer {
        Transfer::ToOptical(_) => true,
        _ => false,
    }
}

/// A read, with what the buffers hold after it.
pub struct ReadRecord {
    pub read: Read,
    pub serial_buf: Seq<u8>,
    pub opt_buf: Seq<u8>,
}

impl ReadRecord {
    /// The transfer that follows.
    pub open spec fn transfer(self) -> TransferView {
        spec_forward(self.read, self.serial_buf, self.opt_buf)
    }
}

/// All that was read from the USB serial port.
pub open spec fn read_from_serial(log: Seq<ReadRecord>) -> Seq<u8>
    decreases log.len(),
{
    if log.len() == 0 {
        seq![]
    } else {
        let last = log.last();
        read_from_serial(log.drop_last()) + match last.read {
            Read::Serial(len) => last.serial_buf.take(len as int),
            _ => seq![],
        }
    }
}

/// All that was read from the optical port.
pub open spec fn read_from_optical(log: Seq<ReadRecord>) -> Seq<u8>
    decreases log.len(),
{
    if log.len() == 0 {
        seq![]
    } else {
        let last = log.last();
        read_from_optical(log.drop_last()) + match last.read {
            Read::Optical(len) => last.opt_buf.take(len as int),
            _ => seq![],
        }
    }
}

/// All that the optical port was given to write.
pub open spec fn given_to_optical(log: Seq<ReadRecord>) -> Seq<u8>
    decreases log.len(),
{
    if log.len() == 0 {
        seq![]
    } else {
        given_to_optical(log.drop_last()) + match log.last().transfer() {
            TransferView::ToOptical(data) => data,
            _ => seq![],
        }
    }
}

/// All that the USB serial port was given to write.
pub open spec fn given_to_serial(log: Seq<ReadRecord>) -> Seq<u8>
    decreases log.len(),
{
    if log.len() == 0 {
        seq![]
    } else {
        given_to_serial(log.drop_last()) + match log.last().transfer() {
            TransferView::ToSerial(data) => data,
            _ => seq![],
        }
    }
}

/// The bridge is transparent: over any run, each port is given to write exactly
/// what was read from the other one, in the same order.
pub proof fn law_transparent(log: Seq<ReadRecord>)
    ensures
        given_to_optical(log) == read_from_serial(log),
        given_to_serial(log) == read_from_optical(log),
    decreases log.len(),
{
    if log.len() > 0 {
        law_transparent(log.drop_last());
    }
}

/// How waiting for the LED to be signalled ended.
#[derive(Clone, Copy, Debug, PartialEq, Eq, Structural)]
pub enum LedEvent {
    /// It was signalled.
    Signalled,
    /// It was not signalled for [`LED_MIN_ON_MILLIS`].
    TimedOut,
}

/// Whether the LED is on after an event.
pub open spec fn spec_led_on(event: LedEvent) -> bool {
    event == LedEvent::Signalled
}

/// Whether the LED is on after an event.
pub fn led_on(event: LedEvent) -> (res: bool)
    ensures
        res == spec_led_on(event),
{
    match event {
        LedEvent::Signalled => true,
        LedEvent::TimedOut => false,
    }
}

/// A wait for a signal, and how long it took.
pub struct LedWait {
    pub event: LedEvent,
    pub millis: nat,
}

/// Whether the LED is on after these waits.
pub open spec fn led_after(waits: Seq<LedWait>) -> bool {
    waits.len() > 0 && spec_led_on(waits.last().event)
}

/// The time of `waits` since the last signal, if there was one.
pub open spec fn since_signal(waits: Seq<LedWait>) -> Option<nat>
    decreases waits.len(),
{
    if waits.len() == 0 {
        None
    } else if waits.last().event == LedEvent::Signalled {
        Some(0)
    } else {
        match since_signal(waits.drop_last()) {
            Some(millis) => Some(millis + waits.last().millis),
            None => None,
        }
    }
}

/// The LED stays on for the minimum time after each signal: once signalled, it
/// is off only when at least that time has passed since the last signal.
pub proof fn law_led_stays_on(waits: Seq<LedWait>)
    requires
        forall|i: int|
            #![trigger waits[i]]
            0 <= i < waits.len() && waits[i].event == LedEvent::TimedOut ==> waits[i].millis
                >= LED_MIN_ON_MILLIS,
    ensures
        since_signal(waits) matches Some(millis) ==> (led_after(waits) || millis
            >= LED_MIN_ON_MILLIS),
{
    if waits.len() > 0 {
        assert(waits[waits.len() - 1] == waits.last());
    }
}

/// What was read from one port is passed on to the other one: as many bytes as
/// were read, and the same ones. Nothing is passed on when reading failed.
pub proof fn law_passes_on_what_was_read(read: Read, serial_buf: Seq<u8>, opt_buf: Seq<u8>)
    requires
        fits(read, serial_buf.len(), opt_buf.len()),
    ensures
        read matches Read::Serial(len) ==> {
            &&& spec_forward(read, serial_buf, opt_buf) matches TransferView::ToOptical(data)
            &&& data.len() == len
            &&& forall|i: int| 0 <= i < len ==> data[i] == serial_buf[i]
        },
        read matches Read::Optical(len) ==> {
            &&& spec_forward(read, serial_buf, opt_buf) matches TransferView::ToSerial(data)
            &&& data.len() == len
            &&& forall|i: int| 0 <= i < len ==> data[i] == opt_buf[i]
        },
        read is Failed ==> spec_forward(read, serial_buf, opt_buf) is Nothing,
{
}

/// The view of a transfer has its direction and its bytes.
pub proof fn law_transfer_view(transfer: Transfer<'_>)
    ensures
        transfer is Nothing <==> transfer@ is Nothing,
        transfer matches Transfer::ToOptical(data) ==> transfer@ == TransferView::ToOptical(data@),
        transfer matches Transfer::ToSerial(data) ==> transfer@ == TransferView::ToSerial(data@),
{
}

/// A port gives as many bytes at once as its buffer holds, and no more.
pub proof fn law_reads_fit_the_buffers(len: usize)
    ensures
        fits(Read::Serial(len), BUF_SIZE as nat, BUF_SIZE as nat) <==> len <= 32,
        fits(Read::Optical(len), BUF_SIZE as nat, BUF_SIZE as nat) <==> len <= 32,
        fits(Read::Failed, BUF_SIZE as nat, BUF_SIZE as nat),
{
}

} // verus!
