//! What can go wrong.
use crate::text;
use vstd::prelude::*;

verus! {

/// The result of an operation that can fail.
pub type AppResult<T> = Result<T, AppError>;

/// The reasons for which an operation fails.
#[derive(Clone, Debug, PartialEq, Eq)]
pub enum AppError {
    NotConnected,
    TransferCanceled,
    InvalidInput(String),
    Protocol(String),
    Security(String),
    Unsupported(String),
    Bluetooth(String),
    Io(String),
    Json(String),
}

impl AppError {
    /// The message that is shown to the user.
    pub open spec fn message(&self) -> Seq<char> {
        match self {
            AppError::NotConnected => "尚未连接另一台设备"@,
            AppError::TransferCanceled => "传输已取消"@,
            AppError::InvalidInput(detail) => "输入无效："@ + detail@,
            AppError::Protocol(detail) => "协议错误："@ + detail@,
            AppError::Security(detail) => "安全校验失败："@ + detail@,
            AppError::Unsupported(detail) => "当前平台暂不支持："@ + detail@,
            AppError::Bluetooth(detail) => "蓝牙操作失败："@ + detail@,
            AppError::Io(detail) => "文件操作失败："@ + detail@,
            AppError::Json(detail) => "数据序列化失败："@ + detail@,
        }
    }

    /// The input was refused with this detail.
    pub open spec fn is_invalid_input(self, detail: Seq<char>) -> bool {
        self matches AppError::InvalidInput(m) && m@ == detail
    }

    /// The protocol was broken with this detail.
    pub open spec fn is_protocol(self, detail: Seq<char>) -> bool {
        self matches AppError::Protocol(m) && m@ == detail
    }

    /// A security check failed with this detail.
    pub open spec fn is_security(self, detail: Seq<char>) -> bool {
        self matches AppError::Security(m) && m@ == detail
    }

    /// The message that is shown to the user.
    pub fn to_string(&self) -> (r: String)
        ensures
            r@ == self.message(),
    {
        match self {
            AppError::NotConnected => String::from_str("尚未连接另一台设备"),
            AppError::TransferCanceled => String::from_str("传输已取消"),
            AppError::InvalidInput(detail) => text::joined("输入无效：", detail),
            AppError::Protocol(detail) => text::joined("协议错误：", detail),
            AppError::Security(detail) => text::joined("安全校验失败：", detail),
            AppError::Unsupported(detail) => text::joined("当前平台暂不支持：", detail),
            AppError::Bluetooth(detail) => text::joined("蓝牙操作失败：", detail),
            AppError::Io(detail) => text::joined("文件操作失败：", detail),
            AppError::Json(detail) => text::joined("数据序列化失败：", detail),
        }
    }

    /// Refuses the input with this detail.
    pub fn invalid_input(detail: &str) -> (r: Self)
        ensures
            r.is_invalid_input(detail@),
    {
        AppError::InvalidInput(String::from_str(detail))
    }

    /// Reports a broken protocol with this detail.
    pub fn protocol(detail: &str) -> (r: Self)
        ensures
            r.is_protocol(detail@),
    {
        AppError::Protocol(String::from_str(detail))
    }

    /// Reports a failed security check with this detail.
    pub fn security(detail: &str) -> (r: Self)
        ensures
            r.is_security(detail@),
    {
        AppError::Security(String::from_str(detail))
    }
}

/// The user is told the cause of an error, behind words that say what kind it is; no two kinds are
/// told alike.
pub proof fn law_cause_is_told(detail: Seq<char>, e: AppError, r: String)
    requires
        call_ensures(AppError::to_string, (&e,), r),
        e.is_invalid_input(detail) || e.is_protocol(detail) || e.is_security(detail) || (
        e matches AppError::Unsupported(m) && m@ == detail) || (e matches AppError::Bluetooth(m)
            && m@ == detail) || (e matches AppError::Io(m) && m@ == detail) || (
        e matches AppError::Json(m) && m@ == detail),
    ensures
        r@.len() > detail.len(),
        r@.skip(r@.len() - detail.len()) == detail,
{
    reveal_strlit("输入无效：");
    reveal_strlit("协议错误：");
    reveal_strlit("安全校验失败：");
    reveal_strlit("当前平台暂不支持：");
    reveal_strlit("蓝牙操作失败：");
    reveal_strlit("文件操作失败：");
    reveal_strlit("数据序列化失败：");
    assert(r@.skip(r@.len() - detail.len()) =~= detail);
}

/// An error is made with the detail that was given, and of the kind that was meant.
pub proof fn law_errors_keep_their_detail(
    detail: &str,
    a: AppError,
    b: AppError,
    c: AppError,
)
    requires
        call_ensures(AppError::invalid_input, (detail,), a),
        call_ensures(AppError::protocol, (detail,), b),
        call_ensures(AppError::security, (detail,), c),
    ensures
        a matches AppError::InvalidInput(m) && m@ == detail@,
        b matches AppError::Protocol(m) && m@ == detail@,
        c matches AppError::Security(m) && m@ == detail@,
{
}

} // verus!
