//! Wire codes of transaction and field kinds.

use vstd::prelude::*;

verus! {

/// The kind of a transaction.
#[derive(Clone, Copy, Debug, PartialEq, Eq, Structural)]
pub enum TransactionType {
    Reply,
    Error,
    GetMessageBoard,
    NewMessage,
    OldPostNews,
    ServerMessage,
    SendChat,
    ChatMessage,
    Login,
    SendInstantMessage,
    ShowAgreement,
    DisconnectUser,
    Agreed,
    GetFileNameList,
    DownloadFile,
    UploadFile,
    DownloadBanner,
    GetUserNameList,
    NotifyUserChange,
    NotifyUserDelete,
    UserAccess,
    GetNewsCategoryList,
    GetNewsArticleList,
    GetNewsArticleData,
    PostNewsArticle,
    KeepAlive,
    /// A kind this library does not name, by its wire code.
    Other(u16),
}

/// The wire code of a transaction kind.
pub open spec fn transaction_code(t: TransactionType) -> u16 {
    match t {
        TransactionType::Reply => 0,
        TransactionType::Error => 100,
        TransactionType::GetMessageBoard => 101,
        TransactionType::NewMessage => 102,
        TransactionType::OldPostNews => 103,
        TransactionType::ServerMessage => 104,
        TransactionType::SendChat => 105,
        TransactionType::ChatMessage => 106,
        TransactionType::Login => 107,
        TransactionType::SendInstantMessage => 108,
        TransactionType::ShowAgreement => 109,
        TransactionType::DisconnectUser => 110,
        TransactionType::Agreed => 121,
        TransactionType::GetFileNameList => 200,
        TransactionType::DownloadFile => 202,
        TransactionType::UploadFile => 203,
        TransactionType::DownloadBanner => 212,
        TransactionType::GetUserNameList => 300,
        TransactionType::NotifyUserChange => 301,
        TransactionType::NotifyUserDelete => 302,
        TransactionType::UserAccess => 354,
        TransactionType::GetNewsCategoryList => 370,
        TransactionType::GetNewsArticleList => 371,
        TransactionType::GetNewsArticleData => 400,
        TransactionType::PostNewsArticle => 410,
        TransactionType::KeepAlive => 500,
        TransactionType::Other(c) => c,
    }
}

/// The transaction kind whose wire code is `c`, when `c` is one of the named codes.
pub open spec fn transaction_code_named(c: u16) -> Option<TransactionType> {
    if c == 0 {
        Some(TransactionType::Reply)
    } else if c == 100 {
        Some(TransactionType::Error)
    } else if c == 101 {
        Some(TransactionType::GetMessageBoard)
    } else if c == 102 {
        Some(TransactionType::NewMessage)
    } else if c == 103 {
        Some(TransactionType::OldPostNews)
    } else if c == 104 {
        Some(TransactionType::ServerMessage)
    } else if c == 105 {
        Some(TransactionType::SendChat)
    } else if c == 106 {
        Some(TransactionType::ChatMessage)
    } else if c == 107 {
        Some(TransactionType::Login)
    } else if c == 108 {
        Some(TransactionType::SendInstantMessage)
    } else if c == 109 {
        Some(TransactionType::ShowAgreement)
    } else if c == 110 {
        Some(TransactionType::DisconnectUser)
    } else if c == 121 {
        Some(TransactionType::Agreed)
    } else if c == 200 {
        Some(TransactionType::GetFileNameList)
    } else if c == 202 {
        Some(TransactionType::DownloadFile)
    } else if c == 203 {
        Some(TransactionType::UploadFile)
    } else if c == 212 {
        Some(TransactionType::DownloadBanner)
    } else if c == 300 {
        Some(TransactionType::GetUserNameList)
    } else if c == 301 {
        Some(TransactionType::NotifyUserChange)
    } else if c == 302 {
        Some(TransactionType::NotifyUserDelete)
    } else if c == 354 {
        Some(TransactionType::UserAccess)
    } else if c == 370 {
        Some(TransactionType::GetNewsCategoryList)
    } else if c == 371 {
        Some(TransactionType::GetNewsArticleList)
    } else if c == 400 {
        Some(TransactionType::GetNewsArticleData)
    } else if c == 410 {
        Some(TransactionType::PostNewsArticle)
    } else if c == 500 {
        Some(TransactionType::KeepAlive)
    } else {
        None
    }
}

/// The value a wire code decodes to: the named one, else `Other(c)`.
pub open spec fn transaction_type_of(c: u16) -> TransactionType {
    match transaction_code_named(c) {
        Some(t) => t,
        None => TransactionType::Other(c),
    }
}

/// Whether a value is the one its wire code decodes to: a named kind, or
/// `Other` of a code no kind names.
pub open spec fn canonical_transaction(t: TransactionType) -> bool {
    transaction_type_of(transaction_code(t)) == t
}

impl TransactionType {
    /// The wire code.
    pub fn code(&self) -> (r: u16)
        ensures
            r == transaction_code(*self),
    {
        match self {
            TransactionType::Reply => 0,
            TransactionType::Error => 100,
            TransactionType::GetMessageBoard => 101,
            TransactionType::NewMessage => 102,
            TransactionType::OldPostNews => 103,
            TransactionType::ServerMessage => 104,
            TransactionType::SendChat => 105,
            TransactionType::ChatMessage => 106,
            TransactionType::Login => 107,
            TransactionType::SendInstantMessage => 108,
            TransactionType::ShowAgreement => 109,
            TransactionType::DisconnectUser => 110,
            TransactionType::Agreed => 121,
            TransactionType::GetFileNameList => 200,
            TransactionType::DownloadFile => 202,
            TransactionType::UploadFile => 203,
            TransactionType::DownloadBanner => 212,
            TransactionType::GetUserNameList => 300,
            TransactionType::NotifyUserChange => 301,
            TransactionType::NotifyUserDelete => 302,
            TransactionType::UserAccess => 354,
            TransactionType::GetNewsCategoryList => 370,
            TransactionType::GetNewsArticleList => 371,
            TransactionType::GetNewsArticleData => 400,
            TransactionType::PostNewsArticle => 410,
            TransactionType::KeepAlive => 500,
            TransactionType::Other(c) => *c,
        }
    }

    /// The value with wire code `c`: a named one where `c` names one, else `Other(c)`.
    pub fn from_code(c: u16) -> (r: TransactionType)
        ensures
            transaction_code(r) == c,
            r == transaction_type_of(c),
    {
        if c == 0 {
            TransactionType::Reply
        } else if c == 100 {
            TransactionType::Error
        } else if c == 101 {
            TransactionType::GetMessageBoard
        } else if c == 102 {
            TransactionType::NewMessage
        } else if c == 103 {
            TransactionType::OldPostNews
        } else if c == 104 {
            TransactionType::ServerMessage
        } else if c == 105 {
            TransactionType::SendChat
        } else if c == 106 {
            TransactionType::ChatMessage
        } else if c == 107 {
            TransactionType::Login
        } else if c == 108 {
            TransactionType::SendInstantMessage
        } else if c == 109 {
            TransactionType::ShowAgreement
        } else if c == 110 {
            TransactionType::DisconnectUser
        } else if c == 121 {
            TransactionType::Agreed
        } else if c == 200 {
            TransactionType::GetFileNameList
        } else if c == 202 {
            TransactionType::DownloadFile
        } else if c == 203 {
            TransactionType::UploadFile
        } else if c == 212 {
            TransactionType::DownloadBanner
        } else if c == 300 {
            TransactionType::GetUserNameList
        } else if c == 301 {
            TransactionType::NotifyUserChange
        } else if c == 302 {
            TransactionType::NotifyUserDelete
        } else if c == 354 {
            TransactionType::UserAccess
        } else if c == 370 {
            TransactionType::GetNewsCategoryList
        } else if c == 371 {
            TransactionType::GetNewsArticleList
        } else if c == 400 {
            TransactionType::GetNewsArticleData
        } else if c == 410 {
            TransactionType::PostNewsArticle
        } else if c == 500 {
            TransactionType::KeepAlive
        } else {
            TransactionType::Other(c)
        }
    }
}

/// The kind of a transaction field.
#[derive(Clone, Copy, Debug, PartialEq, Eq, Structural)]
pub enum FieldType {
    ErrorText,
    Data,
    UserName,
    UserId,
    UserIconId,
    UserLogin,
    UserPassword,
    ReferenceNumber,
    TransferSize,
    ChatOptions,
    UserAccess,
    UserFlags,
    Options,
    ServerAgreement,
    VersionNumber,
    ServerName,
    FileNameWithInfo,
    FileName,
    FilePath,
    FileTransferOptions,
    FileSize,
    UserNameWithInfo,
    NewsArticleListData,
    NewsCategoryListData15,
    NewsPath,
    NewsArticleId,
    NewsArticleDataFlavor,
    NewsArticleTitle,
    NewsArticleData,
    NewsArticleFlags,
    /// A kind this library does not name, by its wire code.
    Other(u16),
}

/// The wire code of a field kind.
pub open spec fn field_code(t: FieldType) -> u16 {
    match t {
        FieldType::ErrorText => 100,
        FieldType::Data => 101,
        FieldType::UserName => 102,
        FieldType::UserId => 103,
        FieldType::UserIconId => 104,
        FieldType::UserLogin => 105,
        FieldType::UserPassword => 106,
        FieldType::ReferenceNumber => 107,
        FieldType::TransferSize => 108,
        FieldType::ChatOptions => 109,
        FieldType::UserAccess => 110,
        FieldType::UserFlags => 112,
        FieldType::Options => 113,
        FieldType::ServerAgreement => 150,
        FieldType::VersionNumber => 160,
        FieldType::ServerName => 162,
        FieldType::FileNameWithInfo => 200,
        FieldType::FileName => 201,
        FieldType::FilePath => 202,
        FieldType::FileTransferOptions => 204,
        FieldType::FileSize => 207,
        FieldType::UserNameWithInfo => 300,
        FieldType::NewsArticleListData => 321,
        FieldType::NewsCategoryListData15 => 323,
        FieldType::NewsPath => 325,
        FieldType::NewsArticleId => 326,
        FieldType::NewsArticleDataFlavor => 327,
        FieldType::NewsArticleTitle => 328,
        FieldType::NewsArticleData => 333,
        FieldType::NewsArticleFlags => 334,
        FieldType::Other(c) => c,
    }
}

/// The field kind whose wire code is `c`, when `c` is one of the named codes.
pub open spec fn field_code_named(c: u16) -> Option<FieldType> {
    if c == 100 {
        Some(FieldType::ErrorText)
    } else if c == 101 {
        Some(FieldType::Data)
    } else if c == 102 {
        Some(FieldType::UserName)
    } else if c == 103 {
        Some(FieldType::UserId)
    } else if c == 104 {
        Some(FieldType::UserIconId)
    } else if c == 105 {
        Some(FieldType::UserLogin)
    } else if c == 106 {
        Some(FieldType::UserPassword)
    } else if c == 107 {
        Some(FieldType::ReferenceNumber)
    } else if c == 108 {
        Some(FieldType::TransferSize)
    } else if c == 109 {
        Some(FieldType::ChatOptions)
    } else if c == 110 {
        Some(FieldType::UserAccess)
    } else if c == 112 {
        Some(FieldType::UserFlags)
    } else if c == 113 {
        Some(FieldType::Options)
    } else if c == 150 {
        Some(FieldType::ServerAgreement)
    } else if c == 160 {
        Some(FieldType::VersionNumber)
    } else if c == 162 {
        Some(FieldType::ServerName)
    } else if c == 200 {
        Some(FieldType::FileNameWithInfo)
    } else if c == 201 {
        Some(FieldType::FileName)
    } else if c == 202 {
        Some(FieldType::FilePath)
    } else if c == 204 {
        Some(FieldType::FileTransferOptions)
    } else if c == 207 {
        Some(FieldType::FileSize)
    } else if c == 300 {
        Some(FieldType::UserNameWithInfo)
    } else if c == 321 {
        Some(FieldType::NewsArticleListData)
    } else if c == 323 {
        Some(FieldType::NewsCategoryListData15)
    } else if c == 325 {
        Some(FieldType::NewsPath)
    } else if c == 326 {
        Some(FieldType::NewsArticleId)
    } else if c == 327 {
        Some(FieldType::NewsArticleDataFlavor)
    } else if c == 328 {
        Some(FieldType::NewsArticleTitle)
    } else if c == 333 {
        Some(FieldType::NewsArticleData)
    } else if c == 334 {
        Some(FieldType::NewsArticleFlags)
    } else {
        None
    }
}

/// The value a wire code decodes to: the named one, else `Other(c)`.
pub open spec fn field_type_of(c: u16) -> FieldType {
    match field_code_named(c) {
        Some(t) => t,
        None => FieldType::Other(c),
    }
}

/// Whether a value is the one its wire code decodes to: a named kind, or
/// `Other` of a code no kind names.
pub open spec fn canonical_field(t: FieldType) -> bool {
    field_type_of(field_code(t)) == t
}

impl FieldType {
    /// The wire code.
    pub fn code(&self) -> (r: u16)
        ensures
            r == field_code(*self),
    {
        match self {
            FieldType::ErrorText => 100,
            FieldType::Data => 101,
            FieldType::UserName => 102,
            FieldType::UserId => 103,
            FieldType::UserIconId => 104,
            FieldType::UserLogin => 105,
            FieldType::UserPassword => 106,
            FieldType::ReferenceNumber => 107,
            FieldType::TransferSize => 108,
            FieldType::ChatOptions => 109,
            FieldType::UserAccess => 110,
            FieldType::UserFlags => 112,
            FieldType::Options => 113,
            FieldType::ServerAgreement => 150,
            FieldType::VersionNumber => 160,
            FieldType::ServerName => 162,
            FieldType::FileNameWithInfo => 200,
            FieldType::FileName => 201,
            FieldType::FilePath => 202,
            FieldType::FileTransferOptions => 204,
            FieldType::FileSize => 207,
            FieldType::UserNameWithInfo => 300,
            FieldType::NewsArticleListData => 321,
            FieldType::NewsCategoryListData15 => 323,
            FieldType::NewsPath => 325,
            FieldType::NewsArticleId => 326,
            FieldType::NewsArticleDataFlavor => 327,
            FieldType::NewsArticleTitle => 328,
            FieldType::NewsArticleData => 333,
            FieldType::NewsArticleFlags => 334,
            FieldType::Other(c) => *c,
        }
    }

    /// The value with wire code `c`: a named one where `c` names one, else `Other(c)`.
    pub fn from_code(c: u16) -> (r: FieldType)
        ensures
            field_code(r) == c,
            r == field_type_of(c),
    {
        if c == 100 {
            FieldType::ErrorText
        } else if c == 101 {
            FieldType::Data
        } else if c == 102 {
            FieldType::UserName
        } else if c == 103 {
            FieldType::UserId
        } else if c == 104 {
            FieldType::UserIconId
        } else if c == 105 {
            FieldType::UserLogin
        } else if c == 106 {
            FieldType::UserPassword
        } else if c == 107 {
            FieldType::ReferenceNumber
        } else if c == 108 {
            FieldType::TransferSize
        } else if c == 109 {
            FieldType::ChatOptions
        } else if c == 110 {
            FieldType::UserAccess
        } else if c == 112 {
            FieldType::UserFlags
        } else if c == 113 {
            FieldType::Options
        } else if c == 150 {
            FieldType::ServerAgreement
        } else if c == 160 {
            FieldType::VersionNumber
        } else if c == 162 {
            FieldType::ServerName
        } else if c == 200 {
            FieldType::FileNameWithInfo
        } else if c == 201 {
            FieldType::FileName
        } else if c == 202 {
            FieldType::FilePath
        } else if c == 204 {
            FieldType::FileTransferOptions
        } else if c == 207 {
            FieldType::FileSize
        } else if c == 300 {
            FieldType::UserNameWithInfo
        } else if c == 321 {
            FieldType::NewsArticleListData
        } else if c == 323 {
            FieldType::NewsCategoryListData15
        } else if c == 325 {
            FieldType::NewsPath
        } else if c == 326 {
            FieldType::NewsArticleId
        } else if c == 327 {
            FieldType::NewsArticleDataFlavor
        } else if c == 328 {
            FieldType::NewsArticleTitle
        } else if c == 333 {
            FieldType::NewsArticleData
        } else if c == 334 {
            FieldType::NewsArticleFlags
        } else {
            FieldType::Other(c)
        }
    }
}

} // verus!
