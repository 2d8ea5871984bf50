//! Errors of the KeySight domain.

use vstd::prelude::*;

use crate::text::{append, chars_of, string_of};

verus! {

/// What a KeySight domain operation can fail with.
#[derive(Debug, Clone, PartialEq, Eq)]
pub enum KeysightError {
    /// A title that is empty once trimmed.
    EmptyTitle,
    /// No entity with the given id.
    NotFound(String),
    /// A frontmatter `type` the library does not know.
    InvalidEntityType(String),
    /// Text that cannot be read as what it should be.
    ParseError(String),
    /// A vault file operation failed.
    FileError(String),
    /// An entity kind that may not be the source of a user-drawn edge.
    ConnectionNotAllowed(String),
    /// A project name that cannot name a directory.
    InvalidProjectName(String),
    /// A task status string outside the known set.
    InvalidTaskStatus(String),
    /// The database refused an operation (its message).
    Database(String),
}

/// The text shown for an error.
pub open spec fn spec_error_message(e: KeysightError) -> Seq<char> {
    match e {
        KeysightError::EmptyTitle => "标题不能为空"@,
        KeysightError::NotFound(x) => "实体未找到: "@ + x@,
        KeysightError::InvalidEntityType(x) => "无效的实体类型: "@ + x@,
        KeysightError::ParseError(x) => "解析错误: "@ + x@,
        KeysightError::FileError(x) => "文件操作失败: "@ + x@,
        KeysightError::ConnectionNotAllowed(k) => "连接不合法: "@ + k@
            + " 不能作为 edge 的 from (业务规则)"@,
        KeysightError::InvalidProjectName(x) => "无效的项目名: "@ + x@,
        KeysightError::InvalidTaskStatus(x) => "无效的任务状态: "@ + x@,
        KeysightError::Database(x) => "数据库错误: "@ + x@,
    }
}

fn joined(prefix: &str, x: &String, suffix: &str) -> (r: String)
    ensures
        r@ == prefix@ + x@ + suffix@,
{
    let mut v = chars_of(prefix);
    append(&mut v, &chars_of(x.as_str()));
    append(&mut v, &chars_of(suffix));
    string_of(v.as_slice())
}

impl KeysightError {
    /// The text shown for this error.
    pub fn message(&self) -> (r: String)
        ensures
            r@ == spec_error_message(*self),
    {
        proof {
            reveal_strlit("");
        }
        match self {
            KeysightError::EmptyTitle => "标题不能为空".to_string(),
            KeysightError::NotFound(x) => joined("实体未找到: ", x, ""),
            KeysightError::InvalidEntityType(x) => joined("无效的实体类型: ", x, ""),
            KeysightError::ParseError(x) => joined("解析错误: ", x, ""),
            KeysightError::FileError(x) => joined("文件操作失败: ", x, ""),
            KeysightError::ConnectionNotAllowed(k) => joined(
                "连接不合法: ",
                k,
                " 不能作为 edge 的 from (业务规则)",
            ),
            KeysightError::InvalidProjectName(x) => joined("无效的项目名: ", x, ""),
            KeysightError::InvalidTaskStatus(x) => joined("无效的任务状态: ", x, ""),
            KeysightError::Database(x) => joined("数据库错误: ", x, ""),
        }
    }
}

} // verus!
