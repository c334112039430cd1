//! What the protected registers are set to.

use vstd::prelude::*;

use crate::config::{CanTimings, Config};
use crate::io::{lemma_low_byte, lemma_low_half, Command};
use crate::msgram::McanMessageRAM;

verus! {

/// Global filter field: accept into receive FIFO 0.
pub const ACCEPT_INTO_FIFO0: u8 = 0b00;

/// Global filter field: reject.
pub const REJECT: u8 = 0b10;

/// Element size field: eight data bytes.
pub const EIGHT_BYTES: u8 = 0;

/// Nominal bit timing. The hardware uses one more than each register value.
pub open spec fn bit_timing(timing: CanTimings) -> Command {
    Command::WriteNbtp {
        nbrp: (timing.brp - 1) as u16,
        ntseg1: ((timing.ntseg1 - 1) % 256) as u8,
        ntseg2: (timing.ntseg2 - 1) as u8,
        nsjw: (timing.sjw - 1) as u8,
    }
}

/// Global filter: everything goes to receive FIFO 0 but what the configuration
/// does not accept.
pub open spec fn global_filter(config: Config) -> Command {
    Command::WriteGfc {
        anfs: ACCEPT_INTO_FIFO0,
        anfe: if config.accept_extended_ids {
            ACCEPT_INTO_FIFO0
        } else {
            REJECT
        },
        rrfs: !config.accept_remote_frames,
        rrfe: !(config.accept_remote_frames && config.accept_extended_ids),
    }
}

/// Classic CAN, bit timing, the filter, and the regions of message RAM. The FIFOs
/// do not overwrite, have no watermark and hold eight data bytes an element; the
/// transmit buffers form a FIFO and none is dedicated.
pub open spec fn setup_commands(config: Config, ram: McanMessageRAM) -> Seq<Command> {
    seq![
        Command::ModifyCccrFdoe { fdoe: false },
        bit_timing(config.timing),
        global_filter(config),
        Command::WriteSidfc { lss: ram.sizes.filters as u8, flssa: ram.offsets.filters as u16 },
        Command::WriteXidfc {
            lse: ram.sizes.extended_filters as u8,
            flesa: ram.offsets.extended_filters as u16,
        },
        Command::WriteRxf0c {
            f0om: false,
            f0wm: 0,
            f0s: ram.sizes.rxfifo0 as u8,
            f0sa: ram.offsets.rxfifo0 as u16,
        },
        Command::WriteRxf1c {
            f1om: false,
            f1wm: 0,
            f1s: ram.sizes.rxfifo1 as u8,
            f1sa: ram.offsets.rxfifo1 as u16,
        },
        Command::WriteRxbc { rbsa: ram.offsets.rxbuffers as u16 },
        Command::WriteRxesc { rbds: EIGHT_BYTES, f1ds: EIGHT_BYTES, f0ds: EIGHT_BYTES },
        Command::WriteTxefc {
            efsa: ram.offsets.txevents as u16,
            efs: ram.sizes.txevents as u8,
            efwm: 0,
        },
        Command::WriteTxbc {
            tfqm: false,
            ndtb: 0,
            tfqs: ram.sizes.txfifo as u8,
            tbsa: ram.offsets.txfifo as u16,
        },
        Command::WriteTxesc { tbds: EIGHT_BYTES },
    ]
}

/// The writes that set the protected registers up.
pub fn setup(config: &Config, ram: &McanMessageRAM) -> (commands: Vec<Command>)
    requires
        config.timing.representable(),
    ensures
        commands@ == setup_commands(*config, *ram),
{
    let timing = config.timing;
    let segment1: u16 = timing.ntseg1 - 1;
    assert(segment1 as u8 == segment1 % 256) by (bit_vector);
    vec![
        Command::ModifyCccrFdoe { fdoe: false },
        Command::WriteNbtp {
            nbrp: timing.brp - 1,
            ntseg1: segment1 as u8,
            ntseg2: timing.ntseg2 - 1,
            nsjw: timing.sjw - 1,
        },
        Command::WriteGfc {
            anfs: ACCEPT_INTO_FIFO0,
            anfe: if config.accept_extended_ids {
                ACCEPT_INTO_FIFO0
            } else {
                REJECT
            },
            rrfs: !config.accept_remote_frames,
            rrfe: !(config.accept_remote_frames && config.accept_extended_ids),
        },
        Command::WriteSidfc { lss: ram.sizes.filters as u8, flssa: ram.offsets.filters as u16 },
        Command::WriteXidfc {
            lse: ram.sizes.extended_filters as u8,
            flesa: ram.offsets.extended_filters as u16,
        },
        Command::WriteRxf0c {
            f0om: false,
            f0wm: 0,
            f0s: ram.sizes.rxfifo0 as u8,
            f0sa: ram.offsets.rxfifo0 as u16,
        },
        Command::WriteRxf1c {
            f1om: false,
            f1wm: 0,
            f1s: ram.sizes.rxfifo1 as u8,
            f1sa: ram.offsets.rxfifo1 as u16,
        },
        Command::WriteRxbc { rbsa: ram.offsets.rxbuffers as u16 },
        Command::WriteRxesc { rbds: EIGHT_BYTES, f1ds: EIGHT_BYTES, f0ds: EIGHT_BYTES },
        Command::WriteTxefc {
            efsa: ram.offsets.txevents as u16,
            efs: ram.sizes.txevents as u8,
            efwm: 0,
        },
        Command::WriteTxbc {
            tfqm: false,
            ndtb: 0,
            tfqs: ram.sizes.txfifo as u8,
            tbsa: ram.offsets.txfifo as u16,
        },
        Command::WriteTxesc { tbds: EIGHT_BYTES },
    ]
}

/// Whether a frame that no filter element matches passes the global filter.
pub open spec fn passes(filter: Command, extended: bool, remote: bool) -> bool {
    if extended {
        filter->anfe == ACCEPT_INTO_FIFO0 && !(remote && filter->rrfe)
    } else {
        filter->anfs == ACCEPT_INTO_FIFO0 && !(remote && filter->rrfs)
    }
}

/// A frame passes the filter unless it is extended and extended identifiers are
/// not accepted, or remote and remote frames are not accepted.
pub proof fn law_filter_follows_config(config: Config, extended: bool, remote: bool)
    ensures
        passes(global_filter(config), extended, remote) <==> {
            &&& extended ==> config.accept_extended_ids
            &&& remote ==> config.accept_remote_frames
        },
{
}

/// The hardware adds one to each value of the bit timing register. For timings in
/// the documented ranges, the values used on the bus are those configured.
pub proof fn law_bus_uses_configured_timing(timing: CanTimings)
    requires
        timing.documented(),
    ensures
        bit_timing(timing) matches Command::WriteNbtp { nbrp, ntseg1, ntseg2, nsjw } && {
            &&& nbrp + 1 == timing.brp
            &&& ntseg1 + 1 == timing.ntseg1
            &&& ntseg2 + 1 == timing.ntseg2
            &&& nsjw + 1 == timing.sjw
            &&& nsjw <= ntseg2
        },
{
}

/// Each register is written once, in this order.
pub proof fn law_setup_writes_each_register_once(config: Config, ram: McanMessageRAM)
    ensures
        ({
            let writes = setup_commands(config, ram);
            &&& writes.len() == 12
            &&& writes[0] == (Command::ModifyCccrFdoe { fdoe: false })
            &&& writes[1] is WriteNbtp
            &&& writes[2] is WriteGfc
            &&& writes[3] is WriteSidfc
            &&& writes[4] is WriteXidfc
            &&& writes[5] is WriteRxf0c
            &&& writes[6] is WriteRxf1c
            &&& writes[7] is WriteRxbc
            &&& writes[8] is WriteRxesc
            &&& writes[9] is WriteTxefc
            &&& writes[10] is WriteTxbc
            &&& writes[11] is WriteTxesc
        }),
{
}

/// Of the writes that set the registers up exactly one is of the bit timing, and the
/// hardware, which adds one to each of its fields, then uses the configured
/// prescaler, segments and jump width. (Of segment 1 only the lower eight bits fit.)
pub proof fn law_setup_places_the_configured_timing(config: Config, ram: McanMessageRAM, i: int)
    requires
        config.timing.representable(),
        0 <= i < setup_commands(config, ram).len(),
    ensures
        setup_commands(config, ram)[i] is WriteNbtp <==> i == 1,
        setup_commands(config, ram)[i] matches Command::WriteNbtp { nbrp, ntseg1, ntseg2, nsjw }
            ==> {
            &&& nbrp + 1 == config.timing.brp
            &&& config.timing.ntseg1 <= 256 ==> ntseg1 + 1 == config.timing.ntseg1
            &&& (ntseg1 + 1) % 256 == config.timing.ntseg1 % 256
            &&& ntseg2 + 1 == config.timing.ntseg2
            &&& nsjw + 1 == config.timing.sjw
        },
{
}

/// Of the writes that set the registers up exactly one is of the global filter. It
/// lets every standard frame through, extended ones exactly if they are accepted,
/// and remote frames exactly if they are accepted, extended ones only with both.
pub proof fn law_setup_places_the_configured_filter(config: Config, ram: McanMessageRAM, i: int)
    requires
        0 <= i < setup_commands(config, ram).len(),
    ensures
        setup_commands(config, ram)[i] is WriteGfc <==> i == 2,
        setup_commands(config, ram)[i] matches Command::WriteGfc { anfs, anfe, rrfs, rrfe } ==> {
            &&& anfs == 0
            &&& anfe == 0 <==> config.accept_extended_ids
            &&& anfe == 2 <==> !config.accept_extended_ids
            &&& !rrfs <==> config.accept_remote_frames
            &&& !rrfe <==> config.accept_remote_frames && config.accept_extended_ids
        },
{
}

/// The size and the start of each region of message RAM go to that region's own
/// register, as far as they fit; the receive FIFOs do not overwrite and have no
/// watermark, nor has the event FIFO; the transmit buffers form a FIFO and none is
/// dedicated; all elements hold eight bytes.
pub proof fn law_setup_places_the_regions(config: Config, ram: McanMessageRAM)
    ensures
        ({
            let writes = setup_commands(config, ram);
            let sizes = ram.sizes;
            let starts = ram.offsets;
            &&& writes[3] matches Command::WriteSidfc { lss, flssa }
            &&& lss == sizes.filters % 256 && flssa == starts.filters % 0x1_0000
            &&& writes[4] matches Command::WriteXidfc { lse, flesa }
            &&& lse == sizes.extended_filters % 256 && flesa == starts.extended_filters % 0x1_0000
            &&& writes[5] matches Command::WriteRxf0c { f0om, f0wm, f0s, f0sa }
            &&& !f0om && f0wm == 0 && f0s == sizes.rxfifo0 % 256 && f0sa == starts.rxfifo0
                % 0x1_0000
            &&& writes[6] matches Command::WriteRxf1c { f1om, f1wm, f1s, f1sa }
            &&& !f1om && f1wm == 0 && f1s == sizes.rxfifo1 % 256 && f1sa == starts.rxfifo1
                % 0x1_0000
            &&& writes[7] matches Command::WriteRxbc { rbsa }
            &&& rbsa == starts.rxbuffers % 0x1_0000
            &&& writes[8] matches Command::WriteRxesc { rbds, f1ds, f0ds }
            &&& rbds == 0 && f1ds == 0 && f0ds == 0
            &&& writes[9] matches Command::WriteTxefc { efsa, efs, efwm }
            &&& efsa == starts.txevents % 0x1_0000 && efs == sizes.txevents % 256 && efwm == 0
            &&& writes[10] matches Command::WriteTxbc { tfqm, ndtb, tfqs, tbsa }
            &&& !tfqm && ndtb == 0 && tfqs == sizes.txfifo % 256 && tbsa == starts.txfifo
                % 0x1_0000
            &&& writes[11] matches Command::WriteTxesc { tbds }
            &&& tbds == 0
        }),
{
    lemma_low_byte(ram.sizes.filters);
    lemma_low_byte(ram.sizes.extended_filters);
    lemma_low_byte(ram.sizes.rxfifo0);
    lemma_low_byte(ram.sizes.rxfifo1);
    lemma_low_byte(ram.sizes.txevents);
    lemma_low_byte(ram.sizes.txfifo);
    lemma_low_half(ram.offsets.filters);
    lemma_low_half(ram.offsets.extended_filters);
    lemma_low_half(ram.offsets.rxfifo0);
    lemma_low_half(ram.offsets.rxfifo1);
    lemma_low_half(ram.offsets.rxbuffers);
    lemma_low_half(ram.offsets.txevents);
    lemma_low_half(ram.offsets.txfifo);
}

} // verus!
