pub mod text;
pub mod ast;
pub mod board_trace;
pub mod tick_timing;
pub mod board_log;
pub mod diagnostics;
pub mod alarm_runtime;
pub mod scenario_gen;
pub mod runtime_budget;
pub mod flowchart_text;
pub mod project_scaffold;
pub mod sim_channels;
pub mod force_audit;
pub mod online_vars;
pub mod retain;
pub mod io_map;
pub mod budget_analysis;
pub mod compile_checks;
pub mod keypoints;
pub mod component_report;
pub mod deployment;
pub mod axis_profile;
pub mod perf_bench;
pub mod io_usage;
pub mod flowchart_render;
pub mod flowchart_model;
pub mod task_svg;
pub mod chain;
pub mod flowchart_page;
pub mod flowchart_assets;
pub mod virtual_board;
pub mod realtime_gate;
pub mod sim_plc_args;
pub mod scenario_plan;
pub mod compile_args;
pub mod deploy_args;
pub mod doctor_args;
pub mod tool_args;
pub mod commissioning;
