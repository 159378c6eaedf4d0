//! The command tag that opens every control message, and the pixel formats
//! of 2D resources. Both travel as a 32-bit number with a fixed set of legal
//! values.

use vstd::prelude::*;

verus! {

/// What a control header announces: a 2D command, a cursor command, a
/// success response or an error response.
#[derive(Clone, Copy, Debug, PartialEq, Eq, Structural)]
pub enum CtrlType {
    CmdGetDisplayInfo,
    CmdResourceCreate2d,
    CmdResourceUref,
    CmdSetScanout,
    CmdResourceFlush,
    CmdTransferToHost2d,
    CmdResourceAttachBacking,
    CmdResourceDetachBacking,
    CmdGetCapsetInfo,
    CmdGetCapset,
    CmdGetEdid,
    CmdUpdateCursor,
    CmdMoveCursor,
    RespOkNoData,
    RespOkDisplayInfo,
    RespOkCapsetInfo,
    RespOkCapset,
    RespOkEdid,
    RespErrUnspec,
    RespErrOutOfMemory,
    RespErrInvalidScanoutId,
    RespErrInvalidResourceId,
    RespErrInvalidContextId,
    RespErrInvalidParameter,
}

/// The four disjoint numeric ranges that command tags fall into.
#[derive(Clone, Copy, Debug, PartialEq, Eq, Structural)]
pub enum CtrlCategory {
    Command2d,
    CursorCommand,
    Success,
    Error,
}

/// The failure that an error response reports.
#[derive(Clone, Copy, Debug, PartialEq, Eq, Structural)]
pub enum ResponseError {
    Unspecified,
    OutOfMemory,
    InvalidScanoutId,
    InvalidResourceId,
    InvalidContextId,
    InvalidParameter,
}

/// The range that a 32-bit tag value lies in, if it lies in one of the four.
pub open spec fn category_of_code(code: u32) -> Option<CtrlCategory> {
    if 0x0100 <= code <= 0x010A {
        Some(CtrlCategory::Command2d)
    } else if 0x0300 <= code <= 0x0301 {
        Some(CtrlCategory::CursorCommand)
    } else if 0x1100 <= code <= 0x1104 {
        Some(CtrlCategory::Success)
    } else if 0x1200 <= code <= 0x1205 {
        Some(CtrlCategory::Error)
    } else {
        None
    }
}

impl CtrlType {
    /// The 32-bit value that stands for this tag on the wire.
    pub open spec fn spec_code(self) -> u32 {
        match self {
            CtrlType::CmdGetDisplayInfo => 0x0100,
            CtrlType::CmdResourceCreate2d => 0x0101,
            CtrlType::CmdResourceUref => 0x0102,
            CtrlType::CmdSetScanout => 0x0103,
            CtrlType::CmdResourceFlush => 0x0104,
            CtrlType::CmdTransferToHost2d => 0x0105,
            CtrlType::CmdResourceAttachBacking => 0x0106,
            CtrlType::CmdResourceDetachBacking => 0x0107,
            CtrlType::CmdGetCapsetInfo => 0x0108,
            CtrlType::CmdGetCapset => 0x0109,
            CtrlType::CmdGetEdid => 0x010A,
            CtrlType::CmdUpdateCursor => 0x0300,
            CtrlType::CmdMoveCursor => 0x0301,
            CtrlType::RespOkNoData => 0x1100,
            CtrlType::RespOkDisplayInfo => 0x1101,
            CtrlType::RespOkCapsetInfo => 0x1102,
            CtrlType::RespOkCapset => 0x1103,
            CtrlType::RespOkEdid => 0x1104,
            CtrlType::RespErrUnspec => 0x1200,
            CtrlType::RespErrOutOfMemory => 0x1201,
            CtrlType::RespErrInvalidScanoutId => 0x1202,
            CtrlType::RespErrInvalidResourceId => 0x1203,
            CtrlType::RespErrInvalidContextId => 0x1204,
            CtrlType::RespErrInvalidParameter => 0x1205,
        }
    }

    /// The tag that a 32-bit wire value stands for: the one tag with that
    /// code, or `None` where no tag has it.
    pub open spec fn spec_from_code(code: u32) -> Option<CtrlType> {
        if exists|t: CtrlType| t.spec_code() == code {
            Some(choose|t: CtrlType| t.spec_code() == code)
        } else {
            None
        }
    }

    /// The 32-bit value that stands for this tag on the wire.
    #[verifier::when_used_as_spec(spec_code)]
    pub fn code(self) -> (code: u32)
        ensures
            code == self.spec_code(),
    {
        match self {
            CtrlType::CmdGetDisplayInfo => 0x0100,
            CtrlType::CmdResourceCreate2d => 0x0101,
            CtrlType::CmdResourceUref => 0x0102,
            CtrlType::CmdSetScanout => 0x0103,
            CtrlType::CmdResourceFlush => 0x0104,
            CtrlType::CmdTransferToHost2d => 0x0105,
            CtrlType::CmdResourceAttachBacking => 0x0106,
            CtrlType::CmdResourceDetachBacking => 0x0107,
            CtrlType::CmdGetCapsetInfo => 0x0108,
            CtrlType::CmdGetCapset => 0x0109,
            CtrlType::CmdGetEdid => 0x010A,
            CtrlType::CmdUpdateCursor => 0x0300,
            CtrlType::CmdMoveCursor => 0x0301,
            CtrlType::RespOkNoData => 0x1100,
            CtrlType::RespOkDisplayInfo => 0x1101,
            CtrlType::RespOkCapsetInfo => 0x1102,
            CtrlType::RespOkCapset => 0x1103,
            CtrlType::RespOkEdid => 0x1104,
            CtrlType::RespErrUnspec => 0x1200,
            CtrlType::RespErrOutOfMemory => 0x1201,
            CtrlType::RespErrInvalidScanoutId => 0x1202,
            CtrlType::RespErrInvalidResourceId => 0x1203,
            CtrlType::RespErrInvalidContextId => 0x1204,
            CtrlType::RespErrInvalidParameter => 0x1205,
        }
    }

    /// Reads a tag from its wire value. A value that no tag has is reported
    /// as `None`, never mapped to some tag.
    pub fn from_code(code: u32) -> (tag: Option<CtrlType>)
        ensures
            tag == Self::spec_from_code(code),
            match tag {
                Some(t) => t.spec_code() == code,
                None => forall|t: CtrlType| t.spec_code() != code,
            },
    {
        let tag = match code {
            0x0100 => Some(CtrlType::CmdGetDisplayInfo),
            0x0101 => Some(CtrlType::CmdResourceCreate2d),
            0x0102 => Some(CtrlType::CmdResourceUref),
            0x0103 => Some(CtrlType::CmdSetScanout),
            0x0104 => Some(CtrlType::CmdResourceFlush),
            0x0105 => Some(CtrlType::CmdTransferToHost2d),
            0x0106 => Some(CtrlType::CmdResourceAttachBacking),
            0x0107 => Some(CtrlType::CmdResourceDetachBacking),
            0x0108 => Some(CtrlType::CmdGetCapsetInfo),
            0x0109 => Some(CtrlType::CmdGetCapset),
            0x010A => Some(CtrlType::CmdGetEdid),
            0x0300 => Some(CtrlType::CmdUpdateCursor),
            0x0301 => Some(CtrlType::CmdMoveCursor),
            0x1100 => Some(CtrlType::RespOkNoData),
            0x1101 => Some(CtrlType::RespOkDisplayInfo),
            0x1102 => Some(CtrlType::RespOkCapsetInfo),
            0x1103 => Some(CtrlType::RespOkCapset),
            0x1104 => Some(CtrlType::RespOkEdid),
            0x1200 => Some(CtrlType::RespErrUnspec),
            0x1201 => Some(CtrlType::RespErrOutOfMemory),
            0x1202 => Some(CtrlType::RespErrInvalidScanoutId),
            0x1203 => Some(CtrlType::RespErrInvalidResourceId),
            0x1204 => Some(CtrlType::RespErrInvalidContextId),
            0x1205 => Some(CtrlType::RespErrInvalidParameter),
            _ => None,
        };
        proof {
            match tag {
                Some(t) => {
                    Self::lemma_from_code(t);
                },
                None => {
                    assert forall|t: CtrlType| t.spec_code() != code by {}
                },
            }
        }
        tag
    }

    /// The range that this tag's code lies in.
    pub fn category(self) -> (category: CtrlCategory)
        ensures
            category_of_code(self.spec_code()) == Some(category),
    {
        match self {
            CtrlType::CmdGetDisplayInfo
            | CtrlType::CmdResourceCreate2d
            | CtrlType::CmdResourceUref
            | CtrlType::CmdSetScanout
            | CtrlType::CmdResourceFlush
            | CtrlType::CmdTransferToHost2d
            | CtrlType::CmdResourceAttachBacking
            | CtrlType::CmdResourceDetachBacking
            | CtrlType::CmdGetCapsetInfo
            | CtrlType::CmdGetCapset
            | CtrlType::CmdGetEdid => CtrlCategory::Command2d,
            CtrlType::CmdUpdateCursor | CtrlType::CmdMoveCursor => CtrlCategory::CursorCommand,
            CtrlType::RespOkNoData
            | CtrlType::RespOkDisplayInfo
            | CtrlType::RespOkCapsetInfo
            | CtrlType::RespOkCapset
            | CtrlType::RespOkEdid => CtrlCategory::Success,
            CtrlType::RespErrUnspec
            | CtrlType::RespErrOutOfMemory
            | CtrlType::RespErrInvalidScanoutId
            | CtrlType::RespErrInvalidResourceId
            | CtrlType::RespErrInvalidContextId
            | CtrlType::RespErrInvalidParameter => CtrlCategory::Error,
        }
    }

    /// The failure that this tag reports, for the tags of the error range.
    pub open spec fn spec_error(self) -> Option<ResponseError> {
        match self {
            CtrlType::RespErrUnspec => Some(ResponseError::Unspecified),
            CtrlType::RespErrOutOfMemory => Some(ResponseError::OutOfMemory),
            CtrlType::RespErrInvalidScanoutId => Some(ResponseError::InvalidScanoutId),
            CtrlType::RespErrInvalidResourceId => Some(ResponseError::InvalidResourceId),
            CtrlType::RespErrInvalidContextId => Some(ResponseError::InvalidContextId),
            CtrlType::RespErrInvalidParameter => Some(ResponseError::InvalidParameter),
            _ => None,
        }
    }

    /// The failure that this tag reports: `Some` exactly for the tags whose
    /// code lies in the error range, with one kind for each code.
    #[verifier::when_used_as_spec(spec_error)]
    pub fn error(self) -> (kind: Option<ResponseError>)
        ensures
            kind == self.spec_error(),
            kind is Some <==> 0x1200 <= self.spec_code() <= 0x1205,
    {
        match self {
            CtrlType::RespErrUnspec => Some(ResponseError::Unspecified),
            CtrlType::RespErrOutOfMemory => Some(ResponseError::OutOfMemory),
            CtrlType::RespErrInvalidScanoutId => Some(ResponseError::InvalidScanoutId),
            CtrlType::RespErrInvalidResourceId => Some(ResponseError::InvalidResourceId),
            CtrlType::RespErrInvalidContextId => Some(ResponseError::InvalidContextId),
            CtrlType::RespErrInvalidParameter => Some(ResponseError::InvalidParameter),
            _ => None,
        }
    }

    /// The success response that answers this command: the one that carries
    /// what the command asks for, or the one without data for a command
    /// that asks for nothing. A response answers to nothing.
    pub open spec fn spec_expected_response(self) -> Option<CtrlType> {
        match category_of_code(self.spec_code()) {
            Some(CtrlCategory::Command2d) | Some(CtrlCategory::CursorCommand) => Some(
                match self {
                    CtrlType::CmdGetDisplayInfo => CtrlType::RespOkDisplayInfo,
                    CtrlType::CmdGetCapsetInfo => CtrlType::RespOkCapsetInfo,
                    CtrlType::CmdGetCapset => CtrlType::RespOkCapset,
                    CtrlType::CmdGetEdid => CtrlType::RespOkEdid,
                    _ => CtrlType::RespOkNoData,
                },
            ),
            _ => None,
        }
    }

    /// The success response that answers this command; `None` for a tag
    /// that is itself a response.
    #[verifier::when_used_as_spec(spec_expected_response)]
    pub fn expected_response(self) -> (response: Option<CtrlType>)
        ensures
            response == self.spec_expected_response(),
            response matches Some(r) ==> category_of_code(r.spec_code()) == Some(
                CtrlCategory::Success,
            ),
    {
        match self {
            CtrlType::CmdGetDisplayInfo => Some(CtrlType::RespOkDisplayInfo),
            CtrlType::CmdGetCapsetInfo => Some(CtrlType::RespOkCapsetInfo),
            CtrlType::CmdGetCapset => Some(CtrlType::RespOkCapset),
            CtrlType::CmdGetEdid => Some(CtrlType::RespOkEdid),
            CtrlType::CmdResourceCreate2d
            | CtrlType::CmdResourceUref
            | CtrlType::CmdSetScanout
            | CtrlType::CmdResourceFlush
            | CtrlType::CmdTransferToHost2d
            | CtrlType::CmdResourceAttachBacking
            | CtrlType::CmdResourceDetachBacking
            | CtrlType::CmdUpdateCursor
            | CtrlType::CmdMoveCursor => Some(CtrlType::RespOkNoData),
            _ => None,
        }
    }

    /// No two tags share a code.
    pub proof fn lemma_code_injective(a: CtrlType, b: CtrlType)
        ensures
            a.spec_code() == b.spec_code() <==> a == b,
    {
    }

    /// Reading a tag's own code gives the tag back.
    pub proof fn lemma_from_code(t: CtrlType)
        ensures
            Self::spec_from_code(t.spec_code()) == Some(t),
    {
        let found = choose|u: CtrlType| u.spec_code() == t.spec_code();
        Self::lemma_code_injective(found, t);
    }

    /// Every tag lies in one of the four ranges, and it reports a failure
    /// exactly when that is the error range.
    pub proof fn lemma_ranges(t: CtrlType)
        ensures
            category_of_code(t.spec_code()) is Some,
            t.spec_error() is Some <==> category_of_code(t.spec_code()) == Some(
                CtrlCategory::Error,
            ),
    {
    }

    /// Two error tags report the same failure only if they have the same
    /// code.
    pub proof fn lemma_errors_distinct(a: CtrlType, b: CtrlType)
        requires
            a.spec_error() is Some,
            b.spec_error() is Some,
        ensures
            a.spec_error() == b.spec_error() <==> a.spec_code() == b.spec_code(),
    {
    }
}

/// Pixel layouts that a 2D resource can be created with.
#[derive(Clone, Copy, Debug, PartialEq, Eq, Structural)]
pub enum Formats {
    B8G8R8A8Unorm,
    B8G8R8X8Unorm,
    A8R8G8B8Unorm,
    X8R8G8B8Unorm,
    R8G8B8A8Unorm,
    X8B8G8R8Unorm,
    A8B8G8R8Unorm,
    R8G8B8X8Unorm,
}

impl Formats {
    /// The 32-bit value that stands for this format on the wire.
    pub open spec fn spec_code(self) -> u32 {
        match self {
            Formats::B8G8R8A8Unorm => 1,
            Formats::B8G8R8X8Unorm => 2,
            Formats::A8R8G8B8Unorm => 3,
            Formats::X8R8G8B8Unorm => 4,
            Formats::R8G8B8A8Unorm => 67,
            Formats::X8B8G8R8Unorm => 68,
            Formats::A8B8G8R8Unorm => 121,
            Formats::R8G8B8X8Unorm => 134,
        }
    }

    /// The format that a 32-bit wire value stands for, or `None` where no
    /// format has that code.
    pub open spec fn spec_from_code(code: u32) -> Option<Formats> {
        if exists|f: Formats| f.spec_code() == code {
            Some(choose|f: Formats| f.spec_code() == code)
        } else {
            None
        }
    }

    /// The 32-bit value that stands for this format on the wire.
    #[verifier::when_used_as_spec(spec_code)]
    pub fn code(self) -> (code: u32)
        ensures
            code == self.spec_code(),
    {
        match self {
            Formats::B8G8R8A8Unorm => 1,
            Formats::B8G8R8X8Unorm => 2,
            Formats::A8R8G8B8Unorm => 3,
            Formats::X8R8G8B8Unorm => 4,
            Formats::R8G8B8A8Unorm => 67,
            Formats::X8B8G8R8Unorm => 68,
            Formats::A8B8G8R8Unorm => 121,
            Formats::R8G8B8X8Unorm => 134,
        }
    }

    /// Reads a format from its wire value; `None` for a value that no format
    /// has.
    pub fn from_code(code: u32) -> (format: Option<Formats>)
        ensures
            format == Self::spec_from_code(code),
            match format {
                Some(f) => f.spec_code() == code,
                None => forall|f: Formats| f.spec_code() != code,
            },
    {
        let format = match code {
            1 => Some(Formats::B8G8R8A8Unorm),
            2 => Some(Formats::B8G8R8X8Unorm),
            3 => Some(Formats::A8R8G8B8Unorm),
            4 => Some(Formats::X8R8G8B8Unorm),
            67 => Some(Formats::R8G8B8A8Unorm),
            68 => Some(Formats::X8B8G8R8Unorm),
            121 => Some(Formats::A8B8G8R8Unorm),
            134 => Some(Formats::R8G8B8X8Unorm),
            _ => None,
        };
        proof {
            match format {
                Some(f) => {
                    Self::lemma_from_code(f);
                },
                None => {
                    assert forall|f: Formats| f.spec_code() != code by {}
                },
            }
        }
        format
    }

    /// No two formats share a code.
    pub proof fn lemma_code_injective(a: Formats, b: Formats)
        ensures
            a.spec_code() == b.spec_code() <==> a == b,
    {
    }

    /// Reading a format's own code gives the format back.
    pub proof fn lemma_from_code(f: Formats)
        ensures
            Self::spec_from_code(f.spec_code()) == Some(f),
    {
        let found = choose|g: Formats| g.spec_code() == f.spec_code();
        Self::lemma_code_injective(found, f);
    }
}

} // verus!
