//! The library's error type. Every variant carries the structured facts a
//! caller needs to explain the refusal; rendering them as prose is left to
//! the caller.

use vstd::prelude::*;

verus! {

/// Why one invoice line was refused by the tax engine.
#[derive(Debug, Clone, Copy, PartialEq, Eq)]
pub enum LineRejection {
    QuantityNotPositive,
    UnitPriceNegative,
    DiscountNegative,
    DiscountExceedsUnitPrice,
    RateNegative,
    TotalRateNotAboveMinusHundredPercent,
}

/// Why a caller-supplied input was refused.
#[derive(Debug, Clone)]
pub enum InvalidInput {
    /// A stored tax component string outside `CGST`/`SGST`/`IGST`/`CESS`.
    UnknownTaxComponent(String),
    /// A stored pricing mode outside `INCLUSIVE`/`EXCLUSIVE`.
    UnknownPricingMode(String),
    /// Line `index` of an invoice failed validation.
    InvoiceLine { index: usize, reason: LineRejection },
    /// A timestamp that is not RFC 3339.
    InvalidTimestamp(String),
    /// No compliance version is effective for the outlet at the instant.
    NoComplianceVersion { outlet_id: String },
    /// An item pins a tax profile that is not active at its outlet.
    PinnedTaxProfileNotActive { tax_profile_id: String, outlet_id: String },
    /// The outlet has no active default tax profile.
    NoActiveDefaultTaxProfile { outlet_id: String },
    /// A line names a tax profile that no loaded profile row carries.
    UnknownTaxProfile { tax_profile_id: String },
    /// The profile/version pair carries no rules at all.
    NoTaxRules { tax_profile_id: String, compliance_version_id: String },
    /// A quantity that is zero or negative.
    NotPositive { field: &'static str, value: i64 },
    /// A magnitude past the 2^53 exact-integer limit.
    PastSafeInteger { field: &'static str, value: i64 },
    /// A money amount that is negative.
    NegativeMoney { field: &'static str, value: i64 },
    /// A paid-in/out request whose kind is neither `PAID_IN` nor `PAID_OUT`.
    PaidInOutKind(String),
    /// A `created_at` too short to carry a `YYYY-MM-DD` date.
    CreatedAtTooShort(String),
    /// A document submitted with no lines.
    NoLines { document: &'static str },
    /// A stated unit cost outside `0..=2^53-1`.
    UnitCostOutOfRange { value: i64 },
    /// A JSON column read back from a stored row that does not parse.
    StoredJsonInvalid { field: &'static str },
}

/// Every refusal this library can produce.
#[derive(Debug, Clone)]
pub enum DbError {
    InvalidInput(InvalidInput),
    NotFound(&'static str),
    OrderNotAmendable { order_id: String, status: String },
    OrderNotConfirmable { order_id: String, status: String },
    OrderNotSendableToKitchen { order_id: String, status: String },
    ForwardPaymentAmountNotPositive { amount_paise: i64 },
    InvoiceNotFoundForPayment { invoice_id: String },
    ForwardPaymentExceedsRemainingDue {
        invoice_id: String,
        requested_paise: i64,
        remaining_paise: i64,
    },
    ReversalAmountNotNonPositive { reverses_payment_id: String, amount_paise: i64 },
    ReversedPaymentNotFound { payment_id: String },
    PaymentAlreadyFullyReversed { payment_id: String },
    ReversalExceedsRemaining { payment_id: String, requested_paise: i64, remaining_paise: i64 },
    CashShiftAlreadyOpen { device_id: String, cashier_user_id: String, existing_shift_id: String },
    CashShiftNotOpen { cash_shift_id: String, status: String },
    CashVarianceReasonRequired {
        cash_shift_id: String,
        expected_paise: i64,
        actual_paise: i64,
        variance_paise: i64,
    },
    CashMovementReasonRequired { kind: String },
    StockCountNotOpen { stock_count_id: String, status: String },
    WastageQuantityNotPositive { quantity_micro: i64 },
    WastageReasonRequired,
}

/// The result type of every fallible operation here.
pub type DbResult<T> = Result<T, DbError>;

} // verus!
