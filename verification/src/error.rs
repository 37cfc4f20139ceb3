//! The application's error type and its user-facing messages.
use vstd::prelude::*;

use crate::text::{concat_str, copy_string};

verus! {

/// Every failure the application reports.
#[derive(Debug, Clone, PartialEq, Eq)]
pub enum AppError {
    /// A file does not exist.
    FileNotFound { path: String },
    /// Access to a path was refused.
    PermissionDenied { path: String },
    /// A JSON document could not be parsed or lacks required parts.
    InvalidJson { path: String },
    /// A backup could not be made or used.
    BackupFailed { reason: String },
    /// The activation record is missing.
    ActiveConfigMissing,
    /// A configuration does not exist.
    ConfigNotFound { name: String },
    /// A low-level input/output failure.
    IoError { message: String },
    /// A JSONC document could not be parsed.
    JsoncParse { path: String },
    /// The opencode configuration directory could not be determined.
    OpencodeNotFound,
    /// A provider other than the expected one was found.
    ProviderMismatch { expected: String, found: String },
    /// Anything else.
    Unknown { message: String },
}

/// The kinds of input/output failure the application distinguishes.
#[derive(Debug, Clone, Copy, PartialEq, Eq)]
pub enum IoErrorKind {
    NotFound,
    PermissionDenied,
    Other,
}

/// The text shown to the user for an error.
pub open spec fn spec_message(e: AppError) -> Seq<char> {
    match e {
        AppError::FileNotFound { path } => "文件未找到: "@ + path@,
        AppError::PermissionDenied { path } => "权限不足，无法访问: "@ + path@,
        AppError::InvalidJson { path } => "JSON 解析失败: "@ + path@,
        AppError::BackupFailed { reason } => "备份失败: "@ + reason@,
        AppError::ActiveConfigMissing => "活动配置文件缺失（active.json 未找到或无效）"@,
        AppError::ConfigNotFound { name } => "配置不存在: "@ + name@,
        AppError::IoError { message } => "IO 错误: "@ + message@,
        AppError::JsoncParse { path } => "JSONC 解析错误: "@ + path@,
        AppError::OpencodeNotFound => "opencode 配置目录未找到，请确认已安装 opencode"@,
        AppError::ProviderMismatch { expected, found } => "provider 不匹配，期望 "@ + expected@
            + "，实际 "@ + found@,
        AppError::Unknown { message } => "未知错误: "@ + message@,
    }
}

/// The message of an input/output failure: its description, prefixed for
/// a missing file or a refused permission.
pub open spec fn spec_io_message(kind: IoErrorKind, description: Seq<char>) -> Seq<char> {
    match kind {
        IoErrorKind::NotFound => "文件或目录不存在: "@ + description,
        IoErrorKind::PermissionDenied => "权限不足: "@ + description,
        IoErrorKind::Other => description,
    }
}

impl AppError {
    /// The text shown to the user for this error.
    pub fn message(&self) -> (r: String)
        ensures
            r@ == spec_message(*self),
    {
        match self {
            AppError::FileNotFound { path } => concat_str("文件未找到: ", path.as_str()),
            AppError::PermissionDenied { path } => concat_str("权限不足，无法访问: ", path.as_str()),
            AppError::InvalidJson { path } => concat_str("JSON 解析失败: ", path.as_str()),
            AppError::BackupFailed { reason } => concat_str("备份失败: ", reason.as_str()),
            AppError::ActiveConfigMissing => String::from_str(
                "活动配置文件缺失（active.json 未找到或无效）",
            ),
            AppError::ConfigNotFound { name } => concat_str("配置不存在: ", name.as_str()),
            AppError::IoError { message } => concat_str("IO 错误: ", message.as_str()),
            AppError::JsoncParse { path } => concat_str("JSONC 解析错误: ", path.as_str()),
            AppError::OpencodeNotFound => String::from_str(
                "opencode 配置目录未找到，请确认已安装 opencode",
            ),
            AppError::ProviderMismatch { expected, found } => {
                let mut r = concat_str("provider 不匹配，期望 ", expected.as_str());
                r.append("，实际 ");
                r.append(found.as_str());
                r
            },
            AppError::Unknown { message } => concat_str("未知错误: ", message.as_str()),
        }
    }

    /// The error for an input/output failure of the given kind and description.
    pub fn from_io(kind: IoErrorKind, description: &str) -> (r: AppError)
        ensures
            r matches AppError::IoError { message } && message@ == spec_io_message(kind, description@),
    {
        match kind {
            IoErrorKind::NotFound => AppError::IoError {
                message: concat_str("文件或目录不存在: ", description),
            },
            IoErrorKind::PermissionDenied => AppError::IoError {
                message: concat_str("权限不足: ", description),
            },
            IoErrorKind::Other => AppError::IoError { message: String::from_str(description) },
        }
    }

    /// The error for a JSON document that failed to parse, carrying the
    /// parser's description.
    pub fn from_json_error(description: &String) -> (r: AppError)
        ensures
            r matches AppError::InvalidJson { path } && path@ == description@,
    {
        AppError::InvalidJson { path: copy_string(description) }
    }

    /// The error for a JSONC document that failed to parse, carrying the
    /// parser's description.
    pub fn from_jsonc_error(description: &String) -> (r: AppError)
        ensures
            r matches AppError::JsoncParse { path } && path@ == description@,
    {
        AppError::JsoncParse { path: copy_string(description) }
    }

    /// The error for bytes that are not valid UTF-8, carrying the decoder's
    /// description.
    pub fn from_utf8_error(description: &str) -> (r: AppError)
        ensures
            r matches AppError::Unknown { message } && message@ == "UTF-8 编码错误: "@
                + description@,
    {
        AppError::Unknown { message: concat_str("UTF-8 编码错误: ", description) }
    }
}

} // verus!
