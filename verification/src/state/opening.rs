//! The steps that open a file.
use vstd::prelude::*;

use crate::error::{FuseError, FuseResult};
use crate::status::{FileStatus, OpenFlags, StatusView};

verus! {

/// A reader or a writer that the backing file system opened.
pub struct Opened {
    pub id: u64,
    pub status: FileStatus,
    pub is_ufs: bool,
}

/// A reader or a writer as mathematical values.
#[verifier::ext_equal]
pub struct OpenedView {
    pub id: u64,
    pub status: StatusView,
    pub is_ufs: bool,
}

impl View for Opened {
    type V = OpenedView;

    open spec fn view(&self) -> OpenedView {
        OpenedView { id: self.id, status: self.status@, is_ufs: self.is_ufs }
    }
}

/// What is to be done next.
#[derive(Clone, Copy, Debug, PartialEq, Eq, Structural)]
pub enum OpenAction {
    /// Flush this writer, so that a reader sees the file's length.
    Flush { writer: u64 },
    /// Open a writer.
    OpenWriter,
    /// Open a reader.
    OpenReader,
    /// Put the handle in place.
    Install,
}

/// A file that is being opened.
pub struct Opening {
    pub ino: Option<u64>,
    pub flags: OpenFlags,
    pub reader: Option<Opened>,
    pub writer: Option<Opened>,
    pub action: OpenAction,
}

/// A file that is being opened, as mathematical values.
#[verifier::ext_equal]
pub struct OpeningView {
    pub ino: Option<u64>,
    pub flags: OpenFlags,
    pub reader: Option<OpenedView>,
    pub writer: Option<OpenedView>,
    pub action: OpenAction,
}

/// A reader or a writer, if it was opened.
pub open spec fn opt_opened(o: Option<Opened>) -> Option<OpenedView> {
    match o {
        Some(x) => Some(x@),
        None => None,
    }
}

impl View for Opening {
    type V = OpeningView;

    open spec fn view(&self) -> OpeningView {
        OpeningView {
            ino: self.ino,
            flags: self.flags,
            reader: opt_opened(self.reader),
            writer: opt_opened(self.writer),
            action: self.action,
        }
    }
}

/// What is opened first: a reader where the file is only read, else a writer.
pub open spec fn first_open(flags: OpenFlags) -> FuseResult<OpenAction> {
    let mode = flags.spec_access_mode();
    if mode == OpenFlags::RDONLY {
        Ok(OpenAction::OpenReader)
    } else if mode == OpenFlags::WRONLY || mode == OpenFlags::RDWR {
        Ok(OpenAction::OpenWriter)
    } else {
        Err(FuseError::InvalidAccessMode { mode })
    }
}

impl OpeningView {
    /// How opening a file starts. A file that is read and is being written on
    /// the same inode has its writer flushed first.
    pub open spec fn begin(ino: Option<u64>, flags: u32, writer: Option<u64>) -> FuseResult<
        OpeningView,
    > {
        let flags = OpenFlags { value: flags };
        let start = OpeningView {
            ino,
            flags,
            reader: None,
            writer: None,
            action: OpenAction::Install,
        };
        match writer {
            Some(w) if flags.spec_read() => Ok(
                OpeningView { action: OpenAction::Flush { writer: w }, ..start },
            ),
            _ => match first_open(flags) {
                Ok(action) => Ok(OpeningView { action, ..start }),
                Err(e) => Err(e),
            },
        }
    }

    /// The writer was flushed.
    pub open spec fn flushed(self) -> OpeningView {
        OpeningView {
            action: match first_open(self.flags) {
                Ok(action) => action,
                Err(_) => OpenAction::Install,
            },
            ..self
        }
    }

    /// A writer was opened. A reader comes next where the file is read too,
    /// unless the writer is one that cannot be read beside.
    pub open spec fn writer_opened(self, writer: OpenedView) -> OpeningView {
        OpeningView {
            writer: Some(writer),
            action: if self.flags.spec_access_mode() == OpenFlags::RDWR && !writer.is_ufs {
                OpenAction::OpenReader
            } else {
                OpenAction::Install
            },
            ..self
        }
    }

    /// A reader was opened.
    pub open spec fn reader_opened(self, reader: OpenedView) -> OpeningView {
        OpeningView { reader: Some(reader), action: OpenAction::Install, ..self }
    }

    /// The status of the file: that of the writer, else that of the reader.
    pub open spec fn status(self) -> Option<StatusView> {
        match self.writer {
            Some(w) => Some(w.status),
            None => match self.reader {
                Some(r) => Some(r.status),
                None => None,
            },
        }
    }

    /// The number of the reader, if there is one.
    pub open spec fn reader_id(self) -> Option<u64> {
        match self.reader {
            Some(r) => Some(r.id),
            None => None,
        }
    }

    /// The number of the writer, if there is one.
    pub open spec fn writer_id(self) -> Option<u64> {
        match self.writer {
            Some(w) => Some(w.id),
            None => None,
        }
    }

    /// What was opened fits the access mode and what is to be done next.
    pub open spec fn sound(self) -> bool {
        let mode = self.flags.spec_access_mode();
        match self.action {
            OpenAction::Flush { .. } => self.flags.spec_read() && self.reader is None
                && self.writer is None,
            OpenAction::OpenWriter => self.flags.spec_write() && self.reader is None
                && self.writer is None,
            OpenAction::OpenReader => self.reader is None && match self.writer {
                None => mode == OpenFlags::RDONLY,
                Some(w) => mode == OpenFlags::RDWR && !w.is_ufs,
            },
            OpenAction::Install => match self.writer {
                None => mode == OpenFlags::RDONLY && self.reader is Some,
                Some(w) => self.flags.spec_write() && (self.reader is Some <==> (mode
                    == OpenFlags::RDWR && !w.is_ufs)),
            },
        }
    }
}

/// What is opened first.
fn first_action(flags: OpenFlags) -> (r: FuseResult<OpenAction>)
    ensures
        r == first_open(flags),
{
    let mode = flags.access_mode();
    if mode == OpenFlags::RDONLY {
        Ok(OpenAction::OpenReader)
    } else if mode == OpenFlags::WRONLY || mode == OpenFlags::RDWR {
        Ok(OpenAction::OpenWriter)
    } else {
        Err(FuseError::InvalidAccessMode { mode })
    }
}

impl Opening {
    /// Starts to open a file on an inode whose open writer, if it has one, is
    /// given.
    pub fn begin(ino: Option<u64>, flags: u32, writer: Option<u64>) -> (r: FuseResult<Self>)
        ensures
            match r {
                Ok(opening) => OpeningView::begin(ino, flags, writer) == Ok::<
                    OpeningView,
                    FuseError,
                >(opening@),
                Err(e) => OpeningView::begin(ino, flags, writer) == Err::<OpeningView, FuseError>(
                    e,
                ),
            },
    {
        let flags = OpenFlags::new(flags);
        if flags.read() {
            if let Some(w) = writer {
                return Ok(
                    Opening {
                        ino,
                        flags,
                        reader: None,
                        writer: None,
                        action: OpenAction::Flush { writer: w },
                    },
                );
            }
        }
        match first_action(flags) {
            Ok(action) => Ok(Opening { ino, flags, reader: None, writer: None, action }),
            Err(e) => Err(e),
        }
    }

    /// The writer was flushed.
    pub fn flushed(&mut self)
        requires
            old(self)@.action is Flush,
        ensures
            final(self)@ == old(self)@.flushed(),
    {
        self.action = match first_action(self.flags) {
            Ok(action) => action,
            Err(_) => OpenAction::Install,
        };
    }

    /// A writer was opened.
    pub fn writer_opened(&mut self, writer: Opened)
        requires
            old(self)@.action is OpenWriter,
        ensures
            final(self)@ == old(self)@.writer_opened(writer@),
    {
        self.action = if self.flags.access_mode() == OpenFlags::RDWR && !writer.is_ufs {
            OpenAction::OpenReader
        } else {
            OpenAction::Install
        };
        self.writer = Some(writer);
    }

    /// A reader was opened.
    pub fn reader_opened(&mut self, reader: Opened)
        requires
            old(self)@.action is OpenReader,
        ensures
            final(self)@ == old(self)@.reader_opened(reader@),
    {
        self.reader = Some(reader);
        self.action = OpenAction::Install;
    }
}

/// Opening a file keeps to its access mode from start to end: a file that is
/// only read gets a reader, one that is only written a writer, and one that is
/// both a writer, with a reader unless the writer cannot be read beside.
pub proof fn law_opening_is_sound(
    opening: OpeningView,
    opened: OpenedView,
    ino: Option<u64>,
    flags: u32,
    writer: Option<u64>,
)
    ensures
        OpeningView::begin(ino, flags, writer) matches Ok(start) ==> start.sound(),
        opening.sound() && opening.action is Flush ==> opening.flushed().sound()
            && !(opening.flushed().action is Flush) && !(opening.flushed().action is Install),
        opening.sound() && opening.action is OpenWriter ==> opening.writer_opened(opened).sound(),
        opening.sound() && opening.action is OpenReader ==> opening.reader_opened(opened).sound(),
        opening.sound() && opening.action is Install ==> opening.status() is Some,
{
}

/// A file that is read while it is written has its writer flushed before
/// anything is opened, so that the reader sees the length that was written.
pub proof fn law_writer_is_flushed_before_a_reader(ino: u64, flags: u32, writer: u64)
    requires
        (OpenFlags { value: flags }).spec_read(),
    ensures
        OpeningView::begin(Some(ino), flags, Some(writer)) matches Ok(start) && start.action
            == (OpenAction::Flush { writer }) && start.reader is None && start.writer is None,
{
}

/// Flags with an unknown access mode open nothing.
pub proof fn law_unknown_mode_is_refused(ino: Option<u64>, flags: u32, writer: Option<u64>)
    requires
        (OpenFlags { value: flags }).spec_access_mode() > 2,
    ensures
        OpeningView::begin(ino, flags, writer) == Err::<OpeningView, FuseError>(
            FuseError::InvalidAccessMode {
                mode: (OpenFlags { value: flags }).spec_access_mode(),
            },
        ),
{
}

} // verus!
