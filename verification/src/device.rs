//! What is known of the device that a table lives on.

use vstd::prelude::*;

verus! {

/// A device or disk image: its path, its logical block size and total size
/// in bytes, its model and the name it is shown under.
#[derive(Debug, PartialEq, Eq)]
pub struct Info {
    pub path: String,
    pub block_size: u64,
    pub disk_size: u64,
    pub model: String,
    pub name: String,
}

/// What an [`Info`] holds, as plain values.
pub struct InfoView {
    pub path: Seq<char>,
    pub block_size: u64,
    pub disk_size: u64,
    pub model: Seq<char>,
    pub name: Seq<char>,
}

impl View for Info {
    type V = InfoView;

    open spec fn view(&self) -> InfoView {
        InfoView {
            path: self.path@,
            block_size: self.block_size,
            disk_size: self.disk_size,
            model: self.model@,
            name: self.name@,
        }
    }
}

impl Clone for Info {
    fn clone(&self) -> (res: Self)
        ensures
            res == *self,
    {
        Info {
            path: self.path.clone(),
            block_size: self.block_size,
            disk_size: self.disk_size,
            model: self.model.clone(),
            name: self.name.clone(),
        }
    }
}

/// What a block device reports of itself when asked.
#[derive(Debug, PartialEq, Eq)]
pub struct BlockProbe {
    /// The device file, if the device has one.
    pub dev_path: Option<String>,
    pub logical_block_size: u64,
    pub size: u64,
    pub model: Option<String>,
    pub name: String,
}

/// Why a device cannot be described.
#[derive(Debug, Clone, Copy, PartialEq, Eq, Structural)]
pub enum InfoError {
    /// No block size was given and the path is no block device to ask.
    UnknownBlockSize,
    /// The path names no file.
    InvalidDeviceFile,
    /// The block device has no device file.
    NoDeviceFile,
}

impl InfoError {
    /// What went wrong, in words.
    pub open spec fn message_text(self) -> Seq<char> {
        match self {
            InfoError::UnknownBlockSize => "Couldn't automatically determine logical block size"@,
            InfoError::InvalidDeviceFile => "Invalid device file"@,
            InfoError::NoDeviceFile => "Couldn't get device file"@,
        }
    }

    /// What went wrong, in words.
    pub fn message(self) -> (text: &'static str)
        ensures
            text@ == self.message_text(),
    {
        match self {
            InfoError::UnknownBlockSize => "Couldn't automatically determine logical block size",
            InfoError::InvalidDeviceFile => "Invalid device file",
            InfoError::NoDeviceFile => "Couldn't get device file",
        }
    }
}

/// The text of `model`, or nothing where the device reports none.
pub open spec fn model_text(model: Option<String>) -> Seq<char> {
    match model {
        Some(m) => m@,
        None => Seq::empty(),
    }
}

fn model_or_default(model: Option<String>) -> (text: String)
    ensures
        text@ == model_text(model),
{
    match model {
        Some(m) => m,
        None => String::new(),
    }
}

impl Info {
    /// A table can be laid out on the device: its block size is not zero.
    pub open spec fn wf(&self) -> bool {
        self.block_size > 0
    }

    /// The block size that the command line and the device give together:
    /// the one given with `--block`; else zero when a snapshot is being
    /// restored, which brings its own; else the one the device reports.
    pub open spec fn chosen_block_size(
        block: Option<u64>,
        restoring: bool,
        probe: Option<BlockProbe>,
    ) -> Option<u64> {
        match block {
            Some(b) => Some(b),
            None => if restoring {
                Some(0u64)
            } else {
                match probe {
                    Some(p) => Some(p.logical_block_size),
                    None => None,
                }
            },
        }
    }

    /// Describes the device at `path` for a command. `name` is the file name
    /// of the path without its extension, if it has one; `block` is the
    /// block size given on the command line; `restoring` says that the
    /// command restores a snapshot; `probe` is what the device reports, if
    /// it is a block device, and `file_size` the length of the file
    /// otherwise.
    pub fn new_cli(
        path: String,
        name: Option<String>,
        block: Option<u64>,
        restoring: bool,
        probe: Option<BlockProbe>,
        file_size: u64,
    ) -> (res: Result<Info, InfoError>)
        ensures
            Self::chosen_block_size(block, restoring, probe) is None ==> res == Err::<
                Info,
                InfoError,
            >(InfoError::UnknownBlockSize),
            Self::chosen_block_size(block, restoring, probe) is Some && name is None ==> res
                == Err::<Info, InfoError>(InfoError::InvalidDeviceFile),
            Self::chosen_block_size(block, restoring, probe) is Some && name is Some ==> {
                &&& res matches Ok(info)
                &&& info.path == path
                &&& info.name == name->0
                &&& info.block_size == Self::chosen_block_size(block, restoring, probe)->0
                &&& info.disk_size == (match probe {
                    Some(p) => p.size,
                    None => file_size,
                })
                &&& info.model@ == (match probe {
                    Some(p) => model_text(p.model),
                    None => Seq::empty(),
                })
            },
    {
        let block_size = match block {
            Some(b) => b,
            None => {
                if restoring {
                    0
                } else {
                    match &probe {
                        Some(p) => p.logical_block_size,
                        None => {
                            return Err(InfoError::UnknownBlockSize);
                        },
                    }
                }
            },
        };
        let (disk_size, model) = match probe {
            Some(p) => (p.size, model_or_default(p.model)),
            None => (file_size, String::new()),
        };
        match name {
            Some(name) => Ok(Info { path, block_size, disk_size, model, name }),
            None => Err(InfoError::InvalidDeviceFile),
        }
    }

    /// Describes a block device from what it reports.
    pub fn new_block(probe: BlockProbe) -> (res: Result<Info, InfoError>)
        ensures
            probe.dev_path is None ==> res == Err::<Info, InfoError>(InfoError::NoDeviceFile),
            probe.dev_path is Some ==> {
                &&& res matches Ok(info)
                &&& info.path == probe.dev_path->0
                &&& info.block_size == probe.logical_block_size
                &&& info.disk_size == probe.size
                &&& info.model@ == model_text(probe.model)
                &&& info.name == probe.name
            },
    {
        match probe.dev_path {
            Some(path) => Ok(
                Info {
                    path,
                    block_size: probe.logical_block_size,
                    disk_size: probe.size,
                    model: model_or_default(probe.model),
                    name: probe.name,
                },
            ),
            None => Err(InfoError::NoDeviceFile),
        }
    }
}

} // verus!
