//! The two chained 8259 interrupt controllers, as the bytes to send them.
//!
//! Nothing here touches the hardware. Each operation works out which bytes
//! go to which I/O ports, in order; the caller performs the writes.

use vstd::prelude::*;

verus! {

/// Command that starts the initialisation sequence of a controller.
pub const CMD_INIT: u8 = 0x11;

/// Command that acknowledges the interrupt being served.
pub const CMD_END_OF_INTERRUPT: u8 = 0x20;

/// Mode byte that selects 8086 operation.
pub const MODE_8086: u8 = 0x01;

/// A port that nothing listens on; writing to it gives slow hardware time to
/// take in the byte before.
pub const WAIT_PORT: u16 = 0x80;

/// Number of interrupt lines of one controller.
pub const LINES: u8 = 8;

/// One byte to write to one I/O port.
#[derive(Debug, Clone, Copy, PartialEq, Eq, Structural)]
pub struct PortWrite {
    pub port: u16,
    pub value: u8,
}

/// The write that gives the hardware time.
pub open spec fn wait() -> PortWrite {
    PortWrite { port: WAIT_PORT, value: 0 }
}

/// One controller: the first vector it raises, and its two ports.
#[derive(Debug, Clone, Copy, PartialEq, Eq, Structural)]
pub struct Pic {
    pub offset: u8,
    pub command: u16,
    pub data: u16,
}

impl Pic {
    /// Whether this controller raises vector `interrupt_id`: it raises the
    /// `LINES` vectors from its offset on.
    pub open spec fn handles(self, interrupt_id: u8) -> bool {
        self.offset <= interrupt_id < self.offset + LINES
    }

    /// Whether this controller raises vector `interrupt_id`.
    pub fn handles_interrupt(&self, interrupt_id: u8) -> (handles: bool)
        ensures
            handles == self.handles(interrupt_id),
    {
        self.offset <= interrupt_id && interrupt_id - self.offset < LINES
    }

    /// The write that acknowledges the interrupt being served.
    pub fn end_of_interrupt(&self) -> (write: PortWrite)
        ensures
            write == (PortWrite { port: self.command, value: CMD_END_OF_INTERRUPT }),
    {
        PortWrite { port: self.command, value: CMD_END_OF_INTERRUPT }
    }

    /// The write that sets the mask of this controller's lines.
    pub fn write_mask(&self, mask: u8) -> (write: PortWrite)
        ensures
            write == (PortWrite { port: self.data, value: mask }),
    {
        PortWrite { port: self.data, value: mask }
    }
}

/// The primary controller and the secondary one chained to it.
#[derive(Debug, Clone, Copy, PartialEq, Eq, Structural)]
pub struct ChainedPics {
    pub primary: Pic,
    pub secondary: Pic,
}

impl ChainedPics {
    /// The standard pair of controllers with the given vector offsets.
    pub open spec fn standard(offset1: u8, offset2: u8) -> ChainedPics {
        ChainedPics {
            primary: Pic { offset: offset1, command: 0x20, data: 0x21 },
            secondary: Pic { offset: offset2, command: 0xA0, data: 0xA1 },
        }
    }

    /// The bytes that initialise both controllers and then restore
    /// `saved_masks`: every configuration byte is followed by a wait.
    pub open spec fn initialization(self, saved_masks: [u8; 2]) -> Seq<PortWrite> {
        seq![
            PortWrite { port: self.primary.command, value: CMD_INIT },
            wait(),
            PortWrite { port: self.secondary.command, value: CMD_INIT },
            wait(),
            PortWrite { port: self.primary.data, value: self.primary.offset },
            wait(),
            PortWrite { port: self.secondary.data, value: self.secondary.offset },
            wait(),
            PortWrite { port: self.primary.data, value: 4 },
            wait(),
            PortWrite { port: self.secondary.data, value: 2 },
            wait(),
            PortWrite { port: self.primary.data, value: MODE_8086 },
            wait(),
            PortWrite { port: self.secondary.data, value: MODE_8086 },
            wait(),
            PortWrite { port: self.primary.data, value: saved_masks[0] },
            PortWrite { port: self.secondary.data, value: saved_masks[1] },
        ]
    }

    /// The bytes that acknowledge interrupt `interrupt_id`: none if neither
    /// controller raises it; otherwise one for the secondary controller if
    /// the interrupt is its own, and one for the primary controller, through
    /// which every interrupt passes.
    pub open spec fn acknowledgement(self, interrupt_id: u8) -> Seq<PortWrite> {
        if self.secondary.handles(interrupt_id) {
            seq![
                PortWrite { port: self.secondary.command, value: CMD_END_OF_INTERRUPT },
                PortWrite { port: self.primary.command, value: CMD_END_OF_INTERRUPT },
            ]
        } else if self.primary.handles(interrupt_id) {
            seq![PortWrite { port: self.primary.command, value: CMD_END_OF_INTERRUPT }]
        } else {
            Seq::empty()
        }
    }

    /// The standard pair of controllers with the given vector offsets.
    pub fn new(offset1: u8, offset2: u8) -> (pics: ChainedPics)
        ensures
            pics == ChainedPics::standard(offset1, offset2),
    {
        ChainedPics {
            primary: Pic { offset: offset1, command: 0x20, data: 0x21 },
            secondary: Pic { offset: offset2, command: 0xA0, data: 0xA1 },
        }
    }

    /// The bytes that initialise both controllers. `saved_masks` are the
    /// masks read from the two data ports beforehand; they are restored at
    /// the end.
    pub fn initialize(&self, saved_masks: [u8; 2]) -> (writes: Vec<PortWrite>)
        ensures
            writes@ == self.initialization(saved_masks),
    {
        let wait = PortWrite { port: WAIT_PORT, value: 0 };
        let mut writes: Vec<PortWrite> = Vec::new();
        writes.push(PortWrite { port: self.primary.command, value: CMD_INIT });
        writes.push(wait);
        writes.push(PortWrite { port: self.secondary.command, value: CMD_INIT });
        writes.push(wait);
        writes.push(self.primary.write_mask(self.primary.offset));
        writes.push(wait);
        writes.push(self.secondary.write_mask(self.secondary.offset));
        writes.push(wait);
        writes.push(self.primary.write_mask(4));
        writes.push(wait);
        writes.push(self.secondary.write_mask(2));
        writes.push(wait);
        writes.push(self.primary.write_mask(MODE_8086));
        writes.push(wait);
        writes.push(self.secondary.write_mask(MODE_8086));
        writes.push(wait);
        let masks = self.write_masks(saved_masks[0], saved_masks[1]);
        writes.push(masks[0]);
        writes.push(masks[1]);
        assert(writes@ =~= self.initialization(saved_masks));
        writes
    }

    /// The two data ports from which the masks are read, primary first.
    pub fn read_masks(&self) -> (ports: [u16; 2])
        ensures
            ports@ == seq![self.primary.data, self.secondary.data],
    {
        let ports = [self.primary.data, self.secondary.data];
        assert(ports@ =~= seq![self.primary.data, self.secondary.data]);
        ports
    }

    /// The bytes that set the masks of both controllers.
    pub fn write_masks(&self, mask1: u8, mask2: u8) -> (writes: [PortWrite; 2])
        ensures
            writes@ == seq![
                PortWrite { port: self.primary.data, value: mask1 },
                PortWrite { port: self.secondary.data, value: mask2 },
            ],
    {
        let writes = [self.primary.write_mask(mask1), self.secondary.write_mask(mask2)];
        assert(writes@ =~= seq![
            PortWrite { port: self.primary.data, value: mask1 },
            PortWrite { port: self.secondary.data, value: mask2 },
        ]);
        writes
    }

    /// The bytes that mask every line of both controllers.
    pub fn disable(&self) -> (writes: [PortWrite; 2])
        ensures
            writes@ == seq![
                PortWrite { port: self.primary.data, value: u8::MAX },
                PortWrite { port: self.secondary.data, value: u8::MAX },
            ],
    {
        self.write_masks(u8::MAX, u8::MAX)
    }

    /// Whether one of the two controllers raises vector `interrupt_id`.
    pub fn handles_interrupt(&self, interrupt_id: u8) -> (handles: bool)
        ensures
            handles == (self.primary.handles(interrupt_id) || self.secondary.handles(
                interrupt_id,
            )),
    {
        self.primary.handles_interrupt(interrupt_id) || self.secondary.handles_interrupt(
            interrupt_id,
        )
    }

    /// The bytes that acknowledge interrupt `interrupt_id`.
    pub fn notify_end_of_interrupt(&self, interrupt_id: u8) -> (writes: Vec<PortWrite>)
        ensures
            writes@ == self.acknowledgement(interrupt_id),
    {
        let mut writes: Vec<PortWrite> = Vec::new();
        if self.handles_interrupt(interrupt_id) {
            if self.secondary.handles_interrupt(interrupt_id) {
                writes.push(self.secondary.end_of_interrupt());
            }
            writes.push(self.primary.end_of_interrupt());
        }
        assert(writes@ =~= self.acknowledgement(interrupt_id));
        writes
    }
}

} // verus!
