//! ATA PIO on the primary bus: the decisions of the driver (status checks, command
//! setup, identification data, sector word splitting) over the values its ports give.

use vstd::prelude::*;

verus! {

/// Data port.
pub const ATA_PRIMARY_DATA: u16 = 0x1F0;
/// Error port.
pub const ATA_PRIMARY_ERROR: u16 = 0x1F1;
/// Sector count port.
pub const ATA_PRIMARY_SECTOR_COUNT: u16 = 0x1F2;
/// LBA bits 0..8 port.
pub const ATA_PRIMARY_LBA_LOW: u16 = 0x1F3;
/// LBA bits 8..16 port.
pub const ATA_PRIMARY_LBA_MID: u16 = 0x1F4;
/// LBA bits 16..24 port.
pub const ATA_PRIMARY_LBA_HIGH: u16 = 0x1F5;
/// Drive select port.
pub const ATA_PRIMARY_DRIVE_SELECT: u16 = 0x1F6;
/// Status port (read).
pub const ATA_PRIMARY_STATUS: u16 = 0x1F7;
/// Command port (write).
pub const ATA_PRIMARY_COMMAND: u16 = 0x1F7;
/// Status: busy.
pub const ATA_STATUS_BSY: u8 = 0x80;
/// Status: drive ready.
pub const ATA_STATUS_DRDY: u8 = 0x40;
/// Status: data request.
pub const ATA_STATUS_DRQ: u8 = 0x08;
/// Status: error.
pub const ATA_STATUS_ERR: u8 = 0x01;
/// Read sectors command.
pub const ATA_CMD_READ_SECTORS: u8 = 0x20;
/// Write sectors command.
pub const ATA_CMD_WRITE_SECTORS: u8 = 0x30;
/// Identify command.
pub const ATA_CMD_IDENTIFY: u8 = 0xEC;
/// Status reads before a wait gives up.
pub const ATA_WAIT_LIMIT: u32 = 100000;

/// What IDENTIFY tells of a drive.
#[derive(Debug, Clone, Copy)]
pub struct AtaDriveInfo {
    pub exists: bool,
    pub sectors: u64,
    pub model: [u8; 40],
}

impl AtaDriveInfo {
    /// No drive.
    pub fn new() -> (d: AtaDriveInfo)
        ensures
            !d.exists,
            d.sectors == 0,
            d.model@ == Seq::new(40, |i: int| 0u8),
    {
        let d = AtaDriveInfo { exists: false, sectors: 0, model: [0u8; 40] };
        assert(d.model@ =~= Seq::new(40, |i: int| 0u8));
        d
    }
}

/// Whether a status read ends the wait for readiness: not busy and ready.
pub fn ready_status(status: u8) -> (b: bool)
    ensures
        b == (status & ATA_STATUS_BSY == 0 && status & ATA_STATUS_DRDY != 0),
{
    (status & ATA_STATUS_BSY) == 0 && (status & ATA_STATUS_DRDY) != 0
}

/// What a status read means while waiting for data.
#[derive(Debug, Clone, Copy, PartialEq, Eq, Structural)]
pub enum DrqStatus {
    Ready,
    Failed,
    Waiting,
}

/// A status read while waiting for data: ready when not busy with a data request,
/// failed when not busy with the error bit, else keep waiting.
pub fn drq_status(status: u8) -> (d: DrqStatus)
    ensures
        status & ATA_STATUS_BSY == 0 && status & ATA_STATUS_DRQ != 0 ==> d == DrqStatus::Ready,
        status & ATA_STATUS_BSY == 0 && status & ATA_STATUS_DRQ == 0 && status & ATA_STATUS_ERR != 0 ==> d == DrqStatus::Failed,
        !(status & ATA_STATUS_BSY == 0 && (status & ATA_STATUS_DRQ != 0 || status & ATA_STATUS_ERR != 0)) ==> d == DrqStatus::Waiting,
{
    if (status & ATA_STATUS_BSY) == 0 {
        if (status & ATA_STATUS_DRQ) != 0 {
            return DrqStatus::Ready;
        }
        if (status & ATA_STATUS_ERR) != 0 {
            return DrqStatus::Failed;
        }
    }
    DrqStatus::Waiting
}

/// Decide a wait for readiness from the status reads made: `Ok` at the first ready one
/// within `ATA_WAIT_LIMIT` reads, else a timeout.
pub fn wait_for_ready(statuses: &Vec<u8>) -> (r: Result<(), &'static str>)
    ensures
        (exists|i: int| 0 <= i < statuses@.len() && i < ATA_WAIT_LIMIT
            && #[trigger] statuses@[i] & ATA_STATUS_BSY == 0 && statuses@[i] & ATA_STATUS_DRDY != 0) <==> r is Ok,
        r matches Err(e) ==> e@ == "ATA timeout waiting for ready"@,
{
    let mut i: usize = 0;
    while i < statuses.len() && i < 100000
        invariant
            i <= statuses@.len(),
            i <= 100000,
            forall|j: int| 0 <= j < i ==> !(#[trigger] statuses@[j] & ATA_STATUS_BSY == 0 && statuses@[j] & ATA_STATUS_DRDY != 0),
        decreases statuses@.len() - i,
    {
        if ready_status(statuses[i]) {
            return Ok(());
        }
        i = i + 1;
    }
    Err("ATA timeout waiting for ready")
}

/// Decide a wait for data from the status reads made: the first read within
/// `ATA_WAIT_LIMIT` that is not `Waiting` decides; a timeout when there is none.
pub fn wait_for_drq(statuses: &Vec<u8>) -> (r: Result<(), &'static str>)
    ensures
        r is Ok <==> exists|i: int| 0 <= i < statuses@.len() && i < ATA_WAIT_LIMIT
            && #[trigger] drq_of(statuses@[i]) == DrqStatus::Ready
            && forall|j: int| 0 <= j < i ==> #[trigger] drq_of(statuses@[j]) == DrqStatus::Waiting,
        r matches Err(e) ==> e@ == "ATA error during data transfer"@ || e@ == "ATA timeout waiting for DRQ"@,
{
    let mut i: usize = 0;
    while i < statuses.len() && i < 100000
        invariant
            i <= statuses@.len(),
            i <= 100000,
            forall|j: int| 0 <= j < i ==> #[trigger] drq_of(statuses@[j]) == DrqStatus::Waiting,
        decreases statuses@.len() - i,
    {
        let d = drq_status(statuses[i]);
        if d == DrqStatus::Ready {
            return Ok(());
        }
        if d == DrqStatus::Failed {
            proof {
                assert forall|k: int| 0 <= k < statuses@.len() && k < ATA_WAIT_LIMIT
                    && #[trigger] drq_of(statuses@[k]) == DrqStatus::Ready
                    implies !(forall|j: int| 0 <= j < k ==> #[trigger] drq_of(statuses@[j]) == DrqStatus::Waiting) by {
                    if k > i {
                        assert(drq_of(statuses@[i as int]) != DrqStatus::Waiting);
                    }
                }
            }
            return Err("ATA error during data transfer");
        }
        i = i + 1;
    }
    Err("ATA timeout waiting for DRQ")
}

/// What `drq_status` gives for a status byte.
pub open spec fn drq_of(status: u8) -> DrqStatus {
    if status & ATA_STATUS_BSY == 0 && status & ATA_STATUS_DRQ != 0 {
        DrqStatus::Ready
    } else if status & ATA_STATUS_BSY == 0 && status & ATA_STATUS_ERR != 0 {
        DrqStatus::Failed
    } else {
        DrqStatus::Waiting
    }
}

/// The writes that start IDENTIFY on drive 0.
pub fn identify_setup() -> (w: Vec<(u16, u8)>)
    ensures
        w@ == seq![
            (ATA_PRIMARY_DRIVE_SELECT, 0xA0u8),
            (ATA_PRIMARY_SECTOR_COUNT, 0u8),
            (ATA_PRIMARY_LBA_LOW, 0u8),
            (ATA_PRIMARY_LBA_MID, 0u8),
            (ATA_PRIMARY_LBA_HIGH, 0u8),
            (ATA_PRIMARY_COMMAND, ATA_CMD_IDENTIFY),
        ],
{
    let mut w: Vec<(u16, u8)> = Vec::new();
    w.push((ATA_PRIMARY_DRIVE_SELECT, 0xA0));
    w.push((ATA_PRIMARY_SECTOR_COUNT, 0));
    w.push((ATA_PRIMARY_LBA_LOW, 0));
    w.push((ATA_PRIMARY_LBA_MID, 0));
    w.push((ATA_PRIMARY_LBA_HIGH, 0));
    w.push((ATA_PRIMARY_COMMAND, ATA_CMD_IDENTIFY));
    w
}

/// Whether the status read right after IDENTIFY shows a drive, and the LBA mid and high
/// bytes read once it is ready show an ATA (not ATAPI) device.
pub fn identify_check(status: u8, lba_mid: u8, lba_high: u8) -> (r: Result<(), &'static str>)
    ensures
        status == 0 ==> (r matches Err(e) && e@ == "No ATA drive present"@),
        status != 0 && (lba_mid != 0 || lba_high != 0) ==> (r matches Err(e) && e@ == "Not an ATA device"@),
        status != 0 && lba_mid == 0 && lba_high == 0 ==> r is Ok,
{
    if status == 0 {
        return Err("No ATA drive present");
    }
    if lba_mid != 0 || lba_high != 0 {
        return Err("Not an ATA device");
    }
    Ok(())
}

/// Byte `k` of the model string: words 27 to 46 of IDENTIFY data, each high byte first.
pub open spec fn model_byte(data: Seq<u16>, k: int) -> u8 {
    if k % 2 == 0 { (data[27 + k / 2] >> 8u16) as u8 } else { (data[27 + k / 2] & 0xFF) as u8 }
}

/// The drive that IDENTIFY data describes: the model string, and the 28-bit LBA sector
/// count from words 60 and 61.
pub fn identify_drive(data: &[u16]) -> (d: AtaDriveInfo)
    requires
        data@.len() >= 256,
    ensures
        d.exists,
        d.sectors == data@[60] as u64 + (data@[61] as u64) * 65536,
        forall|k: int| 0 <= k < 40 ==> #[trigger] d.model@[k] == model_byte(data@, k),
{
    let mut info = AtaDriveInfo::new();
    info.exists = true;
    let mut i: usize = 0;
    while i < 20
        invariant
            i <= 20,
            data@.len() >= 256,
            info.exists,
            info.model@.len() == 40,
            forall|k: int| 0 <= k < 2 * i ==> #[trigger] info.model@[k] == model_byte(data@, k),
        decreases 20 - i,
    {
        let word = data[27 + i];
        info.model[i * 2] = (word >> 8) as u8;
        info.model[i * 2 + 1] = (word & 0xFF) as u8;
        i = i + 1;
    }
    let lo = data[60] as u64;
    let hi = data[61] as u64;
    assert(lo | (hi << 16) == lo + hi * 65536) by (bit_vector)
        requires lo < 65536, hi < 65536;
    info.sectors = lo | (hi << 16);
    info
}

/// A buffer of `buffer_len` words holds `sector_count` sectors of 256 words.
pub fn check_buffer(buffer_len: usize, sector_count: u8) -> (r: Result<(), &'static str>)
    ensures
        buffer_len < sector_count * 256 ==> (r matches Err(e) && e@ == "Buffer too small"@),
        buffer_len >= sector_count * 256 ==> r is Ok,
{
    if buffer_len < (sector_count as usize * 256) {
        return Err("Buffer too small");
    }
    Ok(())
}

/// The writes that start a transfer of `sector_count` sectors at `lba` with `command`:
/// drive 0 in LBA mode with LBA bits 24..28, the count, LBA bits 0..24, the command.
pub fn sector_command(lba: u32, sector_count: u8, command: u8) -> (w: Vec<(u16, u8)>)
    ensures
        w@ == seq![
            (ATA_PRIMARY_DRIVE_SELECT, (0xE0u8 | ((lba >> 24u32) & 0x0F) as u8) as u8),
            (ATA_PRIMARY_SECTOR_COUNT, sector_count),
            (ATA_PRIMARY_LBA_LOW, (lba & 0xFF) as u8),
            (ATA_PRIMARY_LBA_MID, ((lba >> 8u32) & 0xFF) as u8),
            (ATA_PRIMARY_LBA_HIGH, ((lba >> 16u32) & 0xFF) as u8),
            (ATA_PRIMARY_COMMAND, command),
        ],
{
    let mut w: Vec<(u16, u8)> = Vec::new();
    w.push((ATA_PRIMARY_DRIVE_SELECT, 0xE0 | ((lba >> 24) & 0x0F) as u8));
    w.push((ATA_PRIMARY_SECTOR_COUNT, sector_count));
    w.push((ATA_PRIMARY_LBA_LOW, (lba & 0xFF) as u8));
    w.push((ATA_PRIMARY_LBA_MID, ((lba >> 8) & 0xFF) as u8));
    w.push((ATA_PRIMARY_LBA_HIGH, ((lba >> 16) & 0xFF) as u8));
    w.push((ATA_PRIMARY_COMMAND, command));
    w
}

/// Byte `k` of the words from `start`: each word low byte first.
pub open spec fn word_byte(words: Seq<u16>, start: int, k: int) -> u8 {
    if k % 2 == 0 { (words[start + k / 2] & 0xFF) as u8 } else { (words[start + k / 2] >> 8u16) as u8 }
}

/// The data port writes of sector `sector` of `buffer`: each word low byte, then high.
pub fn sector_writes(buffer: &[u16], sector: usize) -> (w: Vec<(u16, u8)>)
    requires
        (sector + 1) * 256 <= buffer@.len(),
    ensures
        w@.len() == 512,
        forall|k: int| 0 <= k < 512 ==> #[trigger] w@[k] == (ATA_PRIMARY_DATA, word_byte(buffer@, sector * 256, k)),
{
    let n = buffer.len();
    assert(sector * 256 + 256 <= n) by (nonlinear_arith)
        requires (sector + 1) * 256 <= n;
    let offset = sector * 256;
    let mut w: Vec<(u16, u8)> = Vec::new();
    let mut i: usize = 0;
    while i < 256
        invariant
            i <= 256,
            offset == sector * 256,
            offset + 256 <= buffer@.len(),
            w@.len() == 2 * i,
            forall|k: int| 0 <= k < 2 * i ==> #[trigger] w@[k] == (ATA_PRIMARY_DATA, word_byte(buffer@, sector * 256, k)),
        decreases 256 - i,
    {
        let word = buffer[offset + i];
        w.push((ATA_PRIMARY_DATA, (word & 0xFF) as u8));
        w.push((ATA_PRIMARY_DATA, (word >> 8) as u8));
        i = i + 1;
    }
    w
}

} // verus!
