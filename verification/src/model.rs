//! Typed rows and constructor inputs for the outlet tables. Money fields
//! are `i64` paise; timestamps are ISO 8601 UTC text.

use vstd::prelude::*;

verus! {

/// The largest integer every quantity and money figure in this product is
/// bounded by: 2^53 - 1, the last integer a JSON number carries exactly.
pub const MAX_SAFE_INTEGER: i64 = 9_007_199_254_740_991i64;

#[derive(Debug, Clone)]
pub struct Outlet {
    pub id: String,
    pub brand_id: String,
    pub name: String,
    pub timezone: String,
    pub config_version: i64,
    pub created_at: String,
    pub updated_at: String,
}

#[derive(Debug, Clone)]
pub struct Device {
    pub id: String,
    pub outlet_id: String,
    pub kind: String,
    pub name: String,
    pub last_seen_at: Option<String>,
    pub created_at: String,
}

#[derive(Debug, Clone)]
pub struct AppUser {
    pub id: String,
    pub tenant_id: String,
    pub outlet_id: String,
    pub email: String,
    pub full_name: String,
    pub password_hash: String,
    pub pin_hash: Option<String>,
    pub is_active: bool,
    pub permissions_json: String,
    pub config_version: i64,
    pub updated_at: String,
}

#[derive(Debug, Clone)]
pub struct RestaurantTable {
    pub id: String,
    pub outlet_id: String,
    pub section: String,
    pub label: String,
    pub seat_count: i64,
    pub is_active: bool,
    pub config_version: i64,
}

#[derive(Debug, Clone)]
pub struct MenuCategory {
    pub id: String,
    pub outlet_id: String,
    pub name: String,
    pub sort_order: i64,
    pub config_version: i64,
}

#[derive(Debug, Clone)]
pub struct MenuItem {
    pub id: String,
    pub outlet_id: String,
    pub category_id: String,
    pub name: String,
    pub base_price_paise: i64,
    pub is_available: bool,
    pub config_version: i64,
    pub tax_profile_id: Option<String>,
    pub hsn_sac: Option<String>,
}

#[derive(Debug, Clone)]
pub struct MenuItemVariant {
    pub id: String,
    pub menu_item_id: String,
    pub name: String,
    pub price_delta_paise: i64,
    pub config_version: i64,
}

#[derive(Debug, Clone)]
pub struct MenuItemModifier {
    pub id: String,
    pub menu_item_id: String,
    pub group_name: String,
    pub option_name: String,
    pub price_delta_paise: i64,
    pub min_selection: i64,
    pub max_selection: i64,
    pub config_version: i64,
}

#[derive(Debug, Clone)]
pub struct NewOrder {
    pub id: String,
    pub outlet_id: String,
    pub device_id: String,
    pub order_type: String,
    pub status: String,
    pub table_id: Option<String>,
    pub subtotal_paise: i64,
    pub discount_paise: i64,
    pub taxes_paise: i64,
    pub total_paise: i64,
    pub source: String,
    pub external_order_id: Option<String>,
    pub payment_status: String,
    pub payment_source: Option<String>,
    pub confirmed_at: Option<String>,
    pub source_payload_json: Option<String>,
    pub schema_version: i64,
    pub created_at: String,
    pub updated_at: String,
}

#[derive(Debug, Clone)]
pub struct Order {
    pub id: String,
    pub outlet_id: String,
    pub device_id: String,
    pub order_type: String,
    pub status: String,
    pub table_id: Option<String>,
    pub subtotal_paise: i64,
    pub discount_paise: i64,
    pub taxes_paise: i64,
    pub total_paise: i64,
    pub source: String,
    pub external_order_id: Option<String>,
    pub payment_status: String,
    pub payment_source: Option<String>,
    pub confirmed_at: Option<String>,
    pub source_payload_json: Option<String>,
    pub schema_version: i64,
    pub version: i64,
    pub sync_status: String,
    pub created_at: String,
    pub updated_at: String,
    pub display_number: Option<String>,
}

#[derive(Debug, Clone)]
pub struct NewOrderItem {
    pub id: String,
    pub order_id: String,
    pub menu_item_id: String,
    pub variant_id: Option<String>,
    pub quantity: i64,
    pub unit_price_paise: i64,
    pub line_total_paise: i64,
    pub notes: Option<String>,
    pub created_at: String,
}

#[derive(Debug, Clone)]
pub struct OrderItem {
    pub id: String,
    pub order_id: String,
    pub menu_item_id: String,
    pub variant_id: Option<String>,
    pub quantity: i64,
    pub unit_price_paise: i64,
    pub line_total_paise: i64,
    pub notes: Option<String>,
    pub created_at: String,
}

#[derive(Debug, Clone)]
pub struct OrderItemModifier {
    pub id: String,
    pub order_item_id: String,
    pub modifier_id: String,
    pub group_name: String,
    pub option_name: String,
    pub price_delta_paise: i64,
    pub created_at: String,
}

#[derive(Debug, Clone)]
pub struct OrderItemRemovedMeta {
    pub outbox_id: String,
    pub occurred_at: String,
}

#[derive(Debug, Clone)]
pub struct OrderItemQuantitySetMeta {
    pub outbox_id: String,
    pub occurred_at: String,
}

#[derive(Debug, Clone)]
pub struct NewTableSession {
    pub id: String,
    pub outlet_id: String,
    pub table_id: String,
    pub state: String,
    pub current_order_id: Option<String>,
    pub guest_count: i64,
    pub opened_by_user_id: Option<String>,
    pub opened_at: String,
    pub created_at: String,
    pub updated_at: String,
}

#[derive(Debug, Clone)]
pub struct TableSession {
    pub id: String,
    pub outlet_id: String,
    pub table_id: String,
    pub state: String,
    pub current_order_id: Option<String>,
    pub guest_count: i64,
    pub opened_by_user_id: Option<String>,
    pub opened_at: String,
    pub closed_at: Option<String>,
    pub version: i64,
    pub sync_status: String,
    pub created_at: String,
    pub updated_at: String,
}

#[derive(Debug, Clone)]
pub struct Kot {
    pub id: String,
    pub order_id: String,
    pub station: String,
    pub sequence: i64,
    pub status: String,
    pub items_json: String,
    pub created_by_device_id: String,
    pub created_at: String,
    pub updated_at: String,
}

#[derive(Debug, Clone)]
pub struct Station {
    pub id: String,
    pub outlet_id: String,
    pub code: String,
    pub name: String,
    pub sort_order: i64,
    pub is_active: bool,
    pub config_version: i64,
}

#[derive(Debug, Clone)]
pub struct MenuItemStation {
    pub menu_item_id: String,
    pub station_id: String,
    pub config_version: i64,
}

#[derive(Debug, Clone)]
pub struct Printer {
    pub id: String,
    pub outlet_id: String,
    pub name: String,
    pub connection_kind: String,
    pub address: String,
    pub paper_width_mm: i64,
    pub is_active: bool,
    pub config_version: i64,
}

#[derive(Debug, Clone)]
pub struct StationPrinter {
    pub station_id: String,
    pub printer_id: String,
    pub config_version: i64,
}

#[derive(Debug, Clone)]
pub struct PrinterRole {
    pub printer_id: String,
    pub role: String,
    pub config_version: i64,
}

#[derive(Debug, Clone)]
pub struct KotTicketItem {
    pub order_item_id: String,
    pub name: String,
    pub quantity: i64,
    pub modifiers: Vec<String>,
    pub notes: Option<String>,
}

#[derive(Debug, Clone, PartialEq, Eq)]
pub struct UnroutedKitchenItem {
    pub order_item_id: String,
    pub name: String,
}

#[derive(Debug, Clone, PartialEq, Eq)]
pub struct MissingHsnSacItem {
    pub order_item_id: String,
    pub name: String,
}

#[derive(Debug, Clone)]
pub struct SendToKitchenMeta {
    pub device_id: String,
    pub occurred_at: String,
}

#[derive(Debug, Clone)]
pub struct KotTransitionMeta {
    pub status_history_id: String,
    pub outbox_id: String,
    pub changed_by_device_id: String,
    pub occurred_at: String,
}

#[derive(Debug, Clone)]
pub struct KotStatusHistoryEntry {
    pub id: String,
    pub kot_id: String,
    pub status: String,
    pub changed_by_device_id: String,
    pub changed_at: String,
}

#[derive(Debug, Clone)]
pub struct OrderItemAddedMeta {
    pub outbox_id: String,
    pub occurred_at: String,
}

#[derive(Debug, Clone)]
pub struct OrderConfirmedMeta {
    pub outbox_id: String,
    pub occurred_at: String,
    pub confirmed_at: String,
}

#[derive(Debug, Clone)]
pub struct NewOutboxEntry {
    pub id: String,
    pub aggregate_type: String,
    pub aggregate_id: String,
    pub event_type: String,
    pub payload_json: String,
    pub created_at: String,
}

#[derive(Debug, Clone)]
pub struct OutboxEntry {
    pub id: String,
    pub aggregate_type: String,
    pub aggregate_id: String,
    pub event_type: String,
    pub payload_json: String,
    pub created_at: String,
    pub published_at: Option<String>,
    pub attempt_count: i64,
}

#[derive(Debug, Clone)]
pub struct ComplianceVersion {
    pub id: String,
    pub outlet_id: String,
    pub label: String,
    pub effective_from: String,
    pub notes: Option<String>,
    pub config_version: i64,
}

#[derive(Debug, Clone)]
pub struct TaxProfile {
    pub id: String,
    pub outlet_id: String,
    pub code: String,
    pub name: String,
    pub pricing_mode: String,
    pub is_default: bool,
    pub is_active: bool,
    pub config_version: i64,
}

#[derive(Debug, Clone)]
pub struct TaxRule {
    pub id: String,
    pub tax_profile_id: String,
    pub compliance_version_id: String,
    pub component: String,
    pub rate_bps: i64,
    pub effective_from: String,
    pub effective_to: Option<String>,
    pub config_version: i64,
}

#[derive(Debug, Clone)]
pub struct OutletFiscalProfile {
    pub id: String,
    pub outlet_id: String,
    pub legal_name: String,
    pub trade_name: String,
    pub address_line1: String,
    pub address_line2: Option<String>,
    pub city: String,
    pub state_code: String,
    pub state_name: String,
    pub pincode: String,
    pub gstin: String,
    pub fssai_number: Option<String>,
    pub invoice_footer_text: Option<String>,
    pub effective_from: String,
    pub config_version: i64,
}

#[derive(Debug, Clone)]
pub struct InvoiceSeries {
    pub id: String,
    pub outlet_id: String,
    pub code: String,
    pub prefix_template: String,
    pub reset_policy: String,
    pub padding_width: i64,
    pub is_active: bool,
    pub config_version: i64,
}

#[derive(Debug, Clone)]
pub struct DiscountDefinition {
    pub id: String,
    pub outlet_id: String,
    pub code: String,
    pub name: String,
    pub scope: String,
    pub method: String,
    pub value_bps: Option<i64>,
    pub value_paise: Option<i64>,
    pub max_discount_paise: Option<i64>,
    pub required_permission: Option<String>,
    pub requires_reason: bool,
    pub is_active: bool,
    pub effective_from: String,
    pub effective_to: Option<String>,
    pub config_version: i64,
}

#[derive(Debug, Clone)]
pub struct InvoiceSequence {
    pub series_id: String,
    pub period_key: String,
    pub last_value: i64,
    pub updated_at: String,
}

#[derive(Debug, Clone)]
pub struct InvoiceLineShare {
    pub id: String,
    pub order_item_id: String,
    pub quantity: i64,
    pub discount_per_unit_paise: i64,
}

#[derive(Debug, Clone)]
pub struct IssueInvoiceLinesRequest {
    pub invoice_id: String,
    pub lines: Vec<InvoiceLineShare>,
    pub split_index: i64,
    pub split_count: i64,
}

#[derive(Debug, Clone)]
pub struct IssueInvoiceHeader {
    pub outlet_id: String,
    pub order_id: String,
    pub series_code: String,
    pub invoice_date: String,
    pub business_date: String,
    pub customer_name: Option<String>,
    pub customer_phone: Option<String>,
    pub customer_gstin: Option<String>,
    pub place_of_supply_state_code: String,
    pub channel: String,
    pub tax_liability_party: String,
    pub eco_operator_name: Option<String>,
    pub eco_operator_gstin: Option<String>,
    pub supply_classification: Option<String>,
    pub created_by_user_id: String,
}

#[derive(Debug, Clone)]
pub struct InvoiceOutboxMeta {
    pub outbox_id: String,
    pub occurred_at: String,
}

#[derive(Debug, Clone)]
pub struct InvoiceLine {
    pub id: String,
    pub invoice_id: String,
    pub order_item_id: String,
    pub line_no: i64,
    pub description: String,
    pub hsn_sac: Option<String>,
    pub quantity: i64,
    pub unit_price_paise: i64,
    pub gross_paise: i64,
    pub discount_paise: i64,
    pub taxable_value_paise: i64,
    pub tax_profile_id: String,
    pub cgst_rate_bps: i64,
    pub cgst_paise: i64,
    pub sgst_rate_bps: i64,
    pub sgst_paise: i64,
    pub igst_rate_bps: i64,
    pub igst_paise: i64,
    pub cess_rate_bps: i64,
    pub cess_paise: i64,
    pub total_paise: i64,
}

#[derive(Debug, Clone)]
pub struct Invoice {
    pub id: String,
    pub outlet_id: String,
    pub order_id: String,
    pub split_group_id: Option<String>,
    pub split_index: i64,
    pub split_count: i64,
    pub series_id: String,
    pub invoice_number: String,
    pub invoice_date: String,
    pub business_date: String,
    pub status: String,
    pub cancelled_reason: Option<String>,
    pub cancelled_at: Option<String>,
    pub customer_name: Option<String>,
    pub customer_phone: Option<String>,
    pub customer_gstin: Option<String>,
    pub place_of_supply_state_code: String,
    pub subtotal_paise: i64,
    pub discount_paise: i64,
    pub taxable_value_paise: i64,
    pub cgst_paise: i64,
    pub sgst_paise: i64,
    pub igst_paise: i64,
    pub cess_paise: i64,
    pub round_off_paise: i64,
    pub grand_total_paise: i64,
    pub compliance_version_id: String,
    pub tax_snapshot_json: String,
    pub fiscal_profile_json: String,
    pub channel: String,
    pub tax_liability_party: String,
    pub eco_operator_name: Option<String>,
    pub eco_operator_gstin: Option<String>,
    pub supply_classification: Option<String>,
    pub created_by_user_id: String,
    pub created_at: String,
    pub updated_at: String,
    pub version: i64,
    pub sync_status: String,
}

#[derive(Debug, Clone)]
pub struct NewInvoice {
    pub id: String,
    pub outlet_id: String,
    pub order_id: String,
    pub split_group_id: Option<String>,
    pub split_index: i64,
    pub split_count: i64,
    pub series_id: String,
    pub invoice_number: String,
    pub invoice_date: String,
    pub business_date: String,
    pub customer_name: Option<String>,
    pub customer_phone: Option<String>,
    pub customer_gstin: Option<String>,
    pub place_of_supply_state_code: String,
    pub subtotal_paise: i64,
    pub discount_paise: i64,
    pub taxable_value_paise: i64,
    pub cgst_paise: i64,
    pub sgst_paise: i64,
    pub igst_paise: i64,
    pub cess_paise: i64,
    pub round_off_paise: i64,
    pub grand_total_paise: i64,
    pub compliance_version_id: String,
    pub tax_snapshot_json: String,
    pub fiscal_profile_json: String,
    pub channel: String,
    pub tax_liability_party: String,
    pub eco_operator_name: Option<String>,
    pub eco_operator_gstin: Option<String>,
    pub supply_classification: Option<String>,
    pub created_by_user_id: String,
    pub created_at: String,
    pub updated_at: String,
}

#[derive(Debug, Clone)]
pub struct NewInvoiceLine {
    pub id: String,
    pub invoice_id: String,
    pub order_item_id: String,
    pub line_no: i64,
    pub description: String,
    pub hsn_sac: Option<String>,
    pub quantity: i64,
    pub unit_price_paise: i64,
    pub gross_paise: i64,
    pub discount_paise: i64,
    pub taxable_value_paise: i64,
    pub tax_profile_id: String,
    pub cgst_rate_bps: i64,
    pub cgst_paise: i64,
    pub sgst_rate_bps: i64,
    pub sgst_paise: i64,
    pub igst_rate_bps: i64,
    pub igst_paise: i64,
    pub cess_rate_bps: i64,
    pub cess_paise: i64,
    pub total_paise: i64,
}

#[derive(Debug, Clone)]
pub struct NewPayment {
    pub id: String,
    pub outlet_id: String,
    pub order_id: String,
    pub cash_shift_id: Option<String>,
    pub method: String,
    pub status: String,
    pub amount_paise: i64,
    pub tendered_paise: Option<i64>,
    pub change_paise: Option<i64>,
    pub reference: Option<String>,
    pub external_id: Option<String>,
    pub reverses_payment_id: Option<String>,
    pub captured_at: Option<String>,
    pub created_by_user_id: String,
    pub created_at: String,
    pub updated_at: String,
}

#[derive(Debug, Clone)]
pub struct Payment {
    pub id: String,
    pub outlet_id: String,
    pub order_id: String,
    pub cash_shift_id: Option<String>,
    pub method: String,
    pub status: String,
    pub amount_paise: i64,
    pub tendered_paise: Option<i64>,
    pub change_paise: Option<i64>,
    pub reference: Option<String>,
    pub external_id: Option<String>,
    pub reverses_payment_id: Option<String>,
    pub captured_at: Option<String>,
    pub created_by_user_id: String,
    pub created_at: String,
    pub updated_at: String,
    pub version: i64,
    pub sync_status: String,
}

#[derive(Debug, Clone)]
pub struct PaymentOutboxMeta {
    pub outbox_id: String,
    pub occurred_at: String,
}

#[derive(Debug, Clone)]
pub struct NewPaymentAllocation {
    pub id: String,
    pub payment_id: String,
    pub invoice_id: String,
    pub amount_paise: i64,
}

#[derive(Debug, Clone)]
pub struct PaymentAllocation {
    pub id: String,
    pub payment_id: String,
    pub invoice_id: String,
    pub amount_paise: i64,
}

#[derive(Debug, Clone)]
pub struct NewCashShift {
    pub id: String,
    pub outlet_id: String,
    pub device_id: String,
    pub cashier_user_id: String,
    pub opened_at: String,
    pub opening_cash_paise: i64,
    pub business_date: String,
    pub created_at: String,
    pub updated_at: String,
}

#[derive(Debug, Clone)]
pub struct CashShift {
    pub id: String,
    pub outlet_id: String,
    pub device_id: String,
    pub cashier_user_id: String,
    pub status: String,
    pub opened_at: String,
    pub opening_cash_paise: i64,
    pub closed_at: Option<String>,
    pub expected_cash_paise: Option<i64>,
    pub actual_cash_paise: Option<i64>,
    pub variance_paise: Option<i64>,
    pub variance_reason: Option<String>,
    pub business_date: String,
    pub created_at: String,
    pub updated_at: String,
    pub version: i64,
    pub sync_status: String,
}

#[derive(Debug, Clone)]
pub struct CloseCashShiftRequest {
    pub cash_shift_id: String,
    pub actual_cash_paise: i64,
    pub closed_at: String,
    pub updated_at: String,
    pub variance_reason: Option<String>,
}

#[derive(Debug, Clone)]
pub struct CashShiftOutboxMeta {
    pub outbox_id: String,
    pub occurred_at: String,
}

#[derive(Debug, Clone)]
pub struct CashMovement {
    pub id: String,
    pub cash_shift_id: String,
    pub kind: String,
    pub amount_paise: i64,
    pub reason: Option<String>,
    pub payment_id: Option<String>,
    pub created_by_user_id: String,
    pub created_at: String,
}

#[derive(Debug, Clone)]
pub struct NewCashMovement {
    pub id: String,
    pub cash_shift_id: String,
    pub kind: String,
    pub amount_paise: i64,
    pub reason: Option<String>,
    pub payment_id: Option<String>,
    pub created_by_user_id: String,
    pub created_at: String,
}

#[derive(Debug, Clone)]
pub struct PaidInOutRequest {
    pub id: String,
    pub cash_shift_id: String,
    pub kind: String,
    pub amount_paise: i64,
    pub reason: String,
    pub created_by_user_id: String,
    pub created_at: String,
}

#[derive(Debug, Clone)]
pub struct DeviceCredentialCache {
    pub credential_id: String,
    pub device_id: String,
    pub tenant_id: String,
    pub outlet_id: String,
    pub credential_hash: String,
    pub device_kind: String,
    pub revoked_at: Option<String>,
    pub expires_at: Option<String>,
    pub config_version: i64,
}

#[derive(Debug, Clone)]
pub struct InventoryItem {
    pub id: String,
    pub outlet_id: String,
    pub sku: String,
    pub name: String,
    pub category: Option<String>,
    pub dimension: String,
    pub reorder_level_micro: Option<i64>,
    pub par_level_micro: Option<i64>,
    pub storage_location: Option<String>,
    pub is_active: bool,
    pub yield_factor_ppm: i64,
    pub config_version: i64,
}

#[derive(Debug, Clone)]
pub struct ItemUnitConversion {
    pub id: String,
    pub inventory_item_id: String,
    pub pack_unit_label: String,
    pub source_dimension: String,
    pub numerator: i64,
    pub denominator: i64,
    pub config_version: i64,
}

#[derive(Debug, Clone)]
pub struct Recipe {
    pub id: String,
    pub menu_item_variant_id: String,
    pub name: String,
    pub recipe_version: i64,
    pub output_dimension: String,
    pub output_quantity_micro: i64,
    pub config_version: i64,
}

#[derive(Debug, Clone)]
pub struct RecipeIngredient {
    pub id: String,
    pub recipe_id: String,
    pub component_kind: String,
    pub inventory_item_id: Option<String>,
    pub sub_recipe_id: Option<String>,
    pub quantity_micro: i64,
    pub quantity_dimension: String,
    pub yield_factor_ppm: i64,
    pub sort_order: i64,
    pub config_version: i64,
}

#[derive(Debug, Clone)]
pub struct ModifierIngredientDelta {
    pub id: String,
    pub menu_item_modifier_id: String,
    pub inventory_item_id: String,
    pub quantity_micro: i64,
    pub config_version: i64,
}

#[derive(Debug, Clone)]
pub struct NewStockLedgerEntry {
    pub outlet_id: String,
    pub inventory_item_id: String,
    pub inventory_item_name: String,
    pub dimension: String,
    pub entry_type: String,
    pub origin: String,
    pub quantity_applied_micro: i64,
    pub recipe_id: Option<String>,
    pub recipe_version: Option<i64>,
    pub recipe_name: Option<String>,
    pub source_order_id: Option<String>,
    pub source_order_item_id: Option<String>,
    pub reason_code: Option<String>,
    pub note: Option<String>,
    pub occurred_at: String,
    pub business_date: String,
    pub created_by_user_id: Option<String>,
    pub modifier_delta_id: Option<String>,
    pub modifier_name: Option<String>,
    pub modifier_delta_version: Option<i64>,
}

#[derive(Debug, Clone)]
pub struct NewStockDeductionGap {
    pub outlet_id: String,
    pub order_id: String,
    pub order_item_id: String,
    pub menu_item_id: String,
    pub menu_item_variant_id: Option<String>,
    pub menu_item_name: String,
    pub quantity: i64,
    pub reason: String,
    pub occurred_at: String,
    pub business_date: String,
}

#[derive(Debug, Clone)]
pub struct SyncState {
    pub outlet_id: String,
    pub last_pushed_outbox_id: Option<String>,
    pub last_applied_config_version: i64,
    pub last_sync_attempt_at: Option<String>,
    pub last_sync_success_at: Option<String>,
    pub is_online: bool,
}

} // verus!
