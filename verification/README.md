# task_manager

A terminal task manager for Linux. The library (`src/`, verified with Verus)
holds its logic: reading the command line (`command`, `words`), searching and
filtering the process list (`filter`), the table's columns and row order
(`columns`, `order`), decimal rendering and parsing (`decimal`), the rows
themselves (`process`) and the texts it shows (`report`).

The program (`app/`) reads processes and machine figures from the system
(`sysinfo`, `procfs`, `users`) and draws the interface (`cursive`,
`cursive_table_view`). Filters on the CPU and memory shares compare floating
point values and stay in `app/`.
