//! Sampled logistic curve used to build the probability tables, stored in
//! blocks of 1024 points.

use vstd::prelude::*;

verus! {

/// Blocks of round(4096 / (1 + e^(-(i - 2048) / 256))) for i in 0..4096.
pub const LOGISTIC12_0: [i32; 1024] = [
    1, 1, 1, 1, 1, 1, 1, 1, 1, 1, 1, 1, 1, 1, 1, 1,
    1, 1, 1, 1, 1, 1, 1, 2, 2, 2, 2, 2, 2, 2, 2, 2,
    2, 2, 2, 2, 2, 2, 2, 2, 2, 2, 2, 2, 2, 2, 2, 2,
    2, 2, 2, 2, 2, 2, 2, 2, 2, 2, 2, 2, 2, 2, 2, 2,
    2, 2, 2, 2, 2, 2, 2, 2, 2, 2, 2, 2, 2, 2, 2, 2,
    2, 2, 2, 2, 2, 2, 2, 2, 2, 2, 2, 2, 2, 2, 2, 2,
    2, 2, 2, 2, 2, 2, 2, 2, 2, 2, 2, 2, 2, 2, 2, 2,
    2, 2, 2, 2, 2, 2, 2, 2, 2, 2, 2, 2, 2, 2, 2, 2,
    2, 2, 2, 2, 2, 2, 2, 2, 2, 2, 2, 2, 2, 2, 2, 2,
    2, 2, 2, 2, 2, 2, 2, 2, 2, 2, 3, 3, 3, 3, 3, 3,
    3, 3, 3, 3, 3, 3, 3, 3, 3, 3, 3, 3, 3, 3, 3, 3,
    3, 3, 3, 3, 3, 3, 3, 3, 3, 3, 3, 3, 3, 3, 3, 3,
    3, 3, 3, 3, 3, 3, 3, 3, 3, 3, 3, 3, 3, 3, 3, 3,
    3, 3, 3, 3, 3, 3, 3, 3, 3, 3, 3, 3, 3, 3, 3, 3,
    3, 3, 3, 3, 3, 3, 3, 3, 3, 3, 3, 3, 3, 3, 3, 3,
    4, 4, 4, 4, 4, 4, 4, 4, 4, 4, 4, 4, 4, 4, 4, 4,
    4, 4, 4, 4, 4, 4, 4, 4, 4, 4, 4, 4, 4, 4, 4, 4,
    4, 4, 4, 4, 4, 4, 4, 4, 4, 4, 4, 4, 4, 4, 4, 4,
    4, 4, 4, 4, 4, 4, 4, 4, 4, 4, 4, 4, 4, 4, 4, 4,
    5, 5, 5, 5, 5, 5, 5, 5, 5, 5, 5, 5, 5, 5, 5, 5,
    5, 5, 5, 5, 5, 5, 5, 5, 5, 5, 5, 5, 5, 5, 5, 5,
    5, 5, 5, 5, 5, 5, 5, 5, 5, 5, 5, 5, 5, 5, 5, 5,
    5, 5, 5, 5, 6, 6, 6, 6, 6, 6, 6, 6, 6, 6, 6, 6,
    6, 6, 6, 6, 6, 6, 6, 6, 6, 6, 6, 6, 6, 6, 6, 6,
    6, 6, 6, 6, 6, 6, 6, 6, 6, 6, 6, 6, 6, 6, 6, 7,
    7, 7, 7, 7, 7, 7, 7, 7, 7, 7, 7, 7, 7, 7, 7, 7,
    7, 7, 7, 7, 7, 7, 7, 7, 7, 7, 7, 7, 7, 7, 7, 7,
    7, 7, 7, 8, 8, 8, 8, 8, 8, 8, 8, 8, 8, 8, 8, 8,
    8, 8, 8, 8, 8, 8, 8, 8, 8, 8, 8, 8, 8, 8, 8, 8,
    8, 8, 8, 8, 9, 9, 9, 9, 9, 9, 9, 9, 9, 9, 9, 9,
    9, 9, 9, 9, 9, 9, 9, 9, 9, 9, 9, 9, 9, 9, 9, 9,
    10, 10, 10, 10, 10, 10, 10, 10, 10, 10, 10, 10, 10, 10, 10, 10,
    10, 10, 10, 10, 10, 10, 10, 10, 10, 10, 11, 11, 11, 11, 11, 11,
    11, 11, 11, 11, 11, 11, 11, 11, 11, 11, 11, 11, 11, 11, 11, 11,
    11, 12, 12, 12, 12, 12, 12, 12, 12, 12, 12, 12, 12, 12, 12, 12,
    12, 12, 12, 12, 12, 12, 12, 13, 13, 13, 13, 13, 13, 13, 13, 13,
    13, 13, 13, 13, 13, 13, 13, 13, 13, 13, 14, 14, 14, 14, 14, 14,
    14, 14, 14, 14, 14, 14, 14, 14, 14, 14, 14, 14, 14, 15, 15, 15,
    15, 15, 15, 15, 15, 15, 15, 15, 15, 15, 15, 15, 15, 15, 16, 16,
    16, 16, 16, 16, 16, 16, 16, 16, 16, 16, 16, 16, 16, 16, 17, 17,
    17, 17, 17, 17, 17, 17, 17, 17, 17, 17, 17, 17, 17, 18, 18, 18,
    18, 18, 18, 18, 18, 18, 18, 18, 18, 18, 18, 19, 19, 19, 19, 19,
    19, 19, 19, 19, 19, 19, 19, 19, 19, 20, 20, 20, 20, 20, 20, 20,
    20, 20, 20, 20, 20, 20, 21, 21, 21, 21, 21, 21, 21, 21, 21, 21,
    21, 21, 22, 22, 22, 22, 22, 22, 22, 22, 22, 22, 22, 22, 23, 23,
    23, 23, 23, 23, 23, 23, 23, 23, 23, 24, 24, 24, 24, 24, 24, 24,
    24, 24, 24, 24, 25, 25, 25, 25, 25, 25, 25, 25, 25, 25, 26, 26,
    26, 26, 26, 26, 26, 26, 26, 26, 27, 27, 27, 27, 27, 27, 27, 27,
    27, 28, 28, 28, 28, 28, 28, 28, 28, 28, 28, 29, 29, 29, 29, 29,
    29, 29, 29, 30, 30, 30, 30, 30, 30, 30, 30, 30, 31, 31, 31, 31,
    31, 31, 31, 31, 32, 32, 32, 32, 32, 32, 32, 32, 33, 33, 33, 33,
    33, 33, 33, 33, 34, 34, 34, 34, 34, 34, 34, 34, 35, 35, 35, 35,
    35, 35, 35, 36, 36, 36, 36, 36, 36, 36, 37, 37, 37, 37, 37, 37,
    37, 38, 38, 38, 38, 38, 38, 38, 39, 39, 39, 39, 39, 39, 39, 40,
    40, 40, 40, 40, 40, 41, 41, 41, 41, 41, 41, 41, 42, 42, 42, 42,
    42, 42, 43, 43, 43, 43, 43, 43, 44, 44, 44, 44, 44, 44, 45, 45,
    45, 45, 45, 46, 46, 46, 46, 46, 46, 47, 47, 47, 47, 47, 48, 48,
    48, 48, 48, 48, 49, 49, 49, 49, 49, 50, 50, 50, 50, 50, 51, 51,
    51, 51, 51, 52, 52, 52, 52, 52, 53, 53, 53, 53, 53, 54, 54, 54,
    54, 54, 55, 55, 55, 55, 55, 56, 56, 56, 56, 57, 57, 57, 57, 57,
    58, 58, 58, 58, 58, 59, 59, 59, 59, 60, 60, 60, 60, 61, 61, 61,
    61, 62, 62, 62, 62, 62, 63, 63, 63, 63, 64, 64, 64, 64, 65, 65,
    65, 65, 66, 66, 66, 66, 67, 67, 67, 67, 68, 68, 68, 68, 69, 69,
    69, 70, 70, 70, 70, 71, 71, 71, 71, 72, 72, 72, 73, 73, 73, 73,
];
pub const LOGISTIC12_1: [i32; 1024] = [
    74, 74, 74, 75, 75, 75, 75, 76, 76, 76, 77, 77, 77, 77, 78, 78,
    78, 79, 79, 79, 80, 80, 80, 80, 81, 81, 81, 82, 82, 82, 83, 83,
    83, 84, 84, 84, 85, 85, 85, 86, 86, 86, 87, 87, 87, 88, 88, 88,
    89, 89, 89, 90, 90, 90, 91, 91, 91, 92, 92, 92, 93, 93, 93, 94,
    94, 94, 95, 95, 96, 96, 96, 97, 97, 97, 98, 98, 99, 99, 99, 100,
    100, 100, 101, 101, 102, 102, 102, 103, 103, 104, 104, 104, 105, 105, 106, 106,
    106, 107, 107, 108, 108, 108, 109, 109, 110, 110, 110, 111, 111, 112, 112, 113,
    113, 113, 114, 114, 115, 115, 116, 116, 116, 117, 117, 118, 118, 119, 119, 120,
    120, 121, 121, 121, 122, 122, 123, 123, 124, 124, 125, 125, 126, 126, 127, 127,
    128, 128, 129, 129, 130, 130, 130, 131, 131, 132, 132, 133, 133, 134, 135, 135,
    136, 136, 137, 137, 138, 138, 139, 139, 140, 140, 141, 141, 142, 142, 143, 143,
    144, 144, 145, 146, 146, 147, 147, 148, 148, 149, 149, 150, 151, 151, 152, 152,
    153, 153, 154, 155, 155, 156, 156, 157, 158, 158, 159, 159, 160, 161, 161, 162,
    162, 163, 164, 164, 165, 165, 166, 167, 167, 168, 169, 169, 170, 170, 171, 172,
    172, 173, 174, 174, 175, 176, 176, 177, 178, 178, 179, 180, 180, 181, 182, 182,
    183, 184, 184, 185, 186, 186, 187, 188, 189, 189, 190, 191, 191, 192, 193, 194,
    194, 195, 196, 196, 197, 198, 199, 199, 200, 201, 202, 202, 203, 204, 205, 205,
    206, 207, 208, 208, 209, 210, 211, 212, 212, 213, 214, 215, 216, 216, 217, 218,
    219, 220, 220, 221, 222, 223, 224, 224, 225, 226, 227, 228, 229, 229, 230, 231,
    232, 233, 234, 235, 235, 236, 237, 238, 239, 240, 241, 242, 243, 243, 244, 245,
    246, 247, 248, 249, 250, 251, 252, 253, 253, 254, 255, 256, 257, 258, 259, 260,
    261, 262, 263, 264, 265, 266, 267, 268, 269, 270, 271, 272, 273, 274, 275, 276,
    277, 278, 279, 280, 281, 282, 283, 284, 285, 286, 287, 288, 289, 290, 291, 292,
    293, 294, 295, 296, 298, 299, 300, 301, 302, 303, 304, 305, 306, 307, 308, 310,
    311, 312, 313, 314, 315, 316, 318, 319, 320, 321, 322, 323, 324, 326, 327, 328,
    329, 330, 332, 333, 334, 335, 336, 338, 339, 340, 341, 342, 344, 345, 346, 347,
    349, 350, 351, 352, 354, 355, 356, 357, 359, 360, 361, 363, 364, 365, 366, 368,
    369, 370, 372, 373, 374, 376, 377, 378, 380, 381, 382, 384, 385, 386, 388, 389,
    391, 392, 393, 395, 396, 398, 399, 400, 402, 403, 405, 406, 407, 409, 410, 412,
    413, 415, 416, 418, 419, 421, 422, 423, 425, 426, 428, 429, 431, 432, 434, 435,
    437, 439, 440, 442, 443, 445, 446, 448, 449, 451, 452, 454, 456, 457, 459, 460,
    462, 464, 465, 467, 468, 470, 472, 473, 475, 477, 478, 480, 482, 483, 485, 487,
    488, 490, 492, 493, 495, 497, 498, 500, 502, 504, 505, 507, 509, 511, 512, 514,
    516, 518, 519, 521, 523, 525, 526, 528, 530, 532, 534, 535, 537, 539, 541, 543,
    545, 546, 548, 550, 552, 554, 556, 558, 560, 561, 563, 565, 567, 569, 571, 573,
    575, 577, 579, 581, 583, 585, 586, 588, 590, 592, 594, 596, 598, 600, 602, 604,
    606, 608, 610, 612, 615, 617, 619, 621, 623, 625, 627, 629, 631, 633, 635, 637,
    639, 642, 644, 646, 648, 650, 652, 654, 656, 659, 661, 663, 665, 667, 669, 672,
    674, 676, 678, 680, 683, 685, 687, 689, 692, 694, 696, 698, 701, 703, 705, 707,
    710, 712, 714, 717, 719, 721, 724, 726, 728, 731, 733, 735, 738, 740, 742, 745,
    747, 750, 752, 754, 757, 759, 762, 764, 766, 769, 771, 774, 776, 779, 781, 784,
    786, 789, 791, 794, 796, 799, 801, 804, 806, 809, 811, 814, 816, 819, 821, 824,
    827, 829, 832, 834, 837, 840, 842, 845, 847, 850, 853, 855, 858, 861, 863, 866,
    869, 871, 874, 877, 879, 882, 885, 887, 890, 893, 896, 898, 901, 904, 907, 909,
    912, 915, 918, 921, 923, 926, 929, 932, 935, 937, 940, 943, 946, 949, 952, 954,
    957, 960, 963, 966, 969, 972, 975, 977, 980, 983, 986, 989, 992, 995, 998, 1001,
    1004, 1007, 1010, 1013, 1016, 1019, 1022, 1025, 1028, 1031, 1034, 1037, 1040, 1043, 1046, 1049,
    1052, 1055, 1058, 1061, 1064, 1067, 1070, 1074, 1077, 1080, 1083, 1086, 1089, 1092, 1095, 1098,
    1102, 1105, 1108, 1111, 1114, 1117, 1121, 1124, 1127, 1130, 1133, 1137, 1140, 1143, 1146, 1149,
    1153, 1156, 1159, 1162, 1166, 1169, 1172, 1175, 1179, 1182, 1185, 1189, 1192, 1195, 1198, 1202,
    1205, 1208, 1212, 1215, 1218, 1222, 1225, 1228, 1232, 1235, 1239, 1242, 1245, 1249, 1252, 1256,
    1259, 1262, 1266, 1269, 1273, 1276, 1279, 1283, 1286, 1290, 1293, 1297, 1300, 1304, 1307, 1311,
    1314, 1318, 1321, 1325, 1328, 1332, 1335, 1339, 1342, 1346, 1349, 1353, 1356, 1360, 1363, 1367,
    1370, 1374, 1378, 1381, 1385, 1388, 1392, 1396, 1399, 1403, 1406, 1410, 1414, 1417, 1421, 1424,
    1428, 1432, 1435, 1439, 1443, 1446, 1450, 1454, 1457, 1461, 1465, 1468, 1472, 1476, 1479, 1483,
    1487, 1490, 1494, 1498, 1502, 1505, 1509, 1513, 1516, 1520, 1524, 1528, 1531, 1535, 1539, 1543,
    1546, 1550, 1554, 1558, 1561, 1565, 1569, 1573, 1577, 1580, 1584, 1588, 1592, 1596, 1599, 1603,
    1607, 1611, 1615, 1618, 1622, 1626, 1630, 1634, 1638, 1641, 1645, 1649, 1653, 1657, 1661, 1665,
    1668, 1672, 1676, 1680, 1684, 1688, 1692, 1696, 1699, 1703, 1707, 1711, 1715, 1719, 1723, 1727,
    1731, 1734, 1738, 1742, 1746, 1750, 1754, 1758, 1762, 1766, 1770, 1774, 1778, 1782, 1785, 1789,
    1793, 1797, 1801, 1805, 1809, 1813, 1817, 1821, 1825, 1829, 1833, 1837, 1841, 1845, 1849, 1853,
    1857, 1861, 1864, 1868, 1872, 1876, 1880, 1884, 1888, 1892, 1896, 1900, 1904, 1908, 1912, 1916,
    1920, 1924, 1928, 1932, 1936, 1940, 1944, 1948, 1952, 1956, 1960, 1964, 1968, 1972, 1976, 1980,
    1984, 1988, 1992, 1996, 2000, 2004, 2008, 2012, 2016, 2020, 2024, 2028, 2032, 2036, 2040, 2044,
];
pub const LOGISTIC12_2: [i32; 1024] = [
    2048, 2052, 2056, 2060, 2064, 2068, 2072, 2076, 2080, 2084, 2088, 2092, 2096, 2100, 2104, 2108,
    2112, 2116, 2120, 2124, 2128, 2132, 2136, 2140, 2144, 2148, 2152, 2156, 2160, 2164, 2168, 2172,
    2176, 2180, 2184, 2188, 2192, 2196, 2200, 2204, 2208, 2212, 2216, 2220, 2224, 2228, 2232, 2235,
    2239, 2243, 2247, 2251, 2255, 2259, 2263, 2267, 2271, 2275, 2279, 2283, 2287, 2291, 2295, 2299,
    2303, 2307, 2311, 2314, 2318, 2322, 2326, 2330, 2334, 2338, 2342, 2346, 2350, 2354, 2358, 2362,
    2365, 2369, 2373, 2377, 2381, 2385, 2389, 2393, 2397, 2400, 2404, 2408, 2412, 2416, 2420, 2424,
    2428, 2431, 2435, 2439, 2443, 2447, 2451, 2455, 2458, 2462, 2466, 2470, 2474, 2478, 2481, 2485,
    2489, 2493, 2497, 2500, 2504, 2508, 2512, 2516, 2519, 2523, 2527, 2531, 2535, 2538, 2542, 2546,
    2550, 2553, 2557, 2561, 2565, 2568, 2572, 2576, 2580, 2583, 2587, 2591, 2594, 2598, 2602, 2606,
    2609, 2613, 2617, 2620, 2624, 2628, 2631, 2635, 2639, 2642, 2646, 2650, 2653, 2657, 2661, 2664,
    2668, 2672, 2675, 2679, 2682, 2686, 2690, 2693, 2697, 2700, 2704, 2708, 2711, 2715, 2718, 2722,
    2726, 2729, 2733, 2736, 2740, 2743, 2747, 2750, 2754, 2757, 2761, 2764, 2768, 2771, 2775, 2778,
    2782, 2785, 2789, 2792, 2796, 2799, 2803, 2806, 2810, 2813, 2817, 2820, 2823, 2827, 2830, 2834,
    2837, 2840, 2844, 2847, 2851, 2854, 2857, 2861, 2864, 2868, 2871, 2874, 2878, 2881, 2884, 2888,
    2891, 2894, 2898, 2901, 2904, 2907, 2911, 2914, 2917, 2921, 2924, 2927, 2930, 2934, 2937, 2940,
    2943, 2947, 2950, 2953, 2956, 2959, 2963, 2966, 2969, 2972, 2975, 2979, 2982, 2985, 2988, 2991,
    2994, 2998, 3001, 3004, 3007, 3010, 3013, 3016, 3019, 3022, 3026, 3029, 3032, 3035, 3038, 3041,
    3044, 3047, 3050, 3053, 3056, 3059, 3062, 3065, 3068, 3071, 3074, 3077, 3080, 3083, 3086, 3089,
    3092, 3095, 3098, 3101, 3104, 3107, 3110, 3113, 3116, 3119, 3121, 3124, 3127, 3130, 3133, 3136,
    3139, 3142, 3144, 3147, 3150, 3153, 3156, 3159, 3161, 3164, 3167, 3170, 3173, 3175, 3178, 3181,
    3184, 3187, 3189, 3192, 3195, 3198, 3200, 3203, 3206, 3209, 3211, 3214, 3217, 3219, 3222, 3225,
    3227, 3230, 3233, 3235, 3238, 3241, 3243, 3246, 3249, 3251, 3254, 3256, 3259, 3262, 3264, 3267,
    3269, 3272, 3275, 3277, 3280, 3282, 3285, 3287, 3290, 3292, 3295, 3297, 3300, 3302, 3305, 3307,
    3310, 3312, 3315, 3317, 3320, 3322, 3325, 3327, 3330, 3332, 3334, 3337, 3339, 3342, 3344, 3346,
    3349, 3351, 3354, 3356, 3358, 3361, 3363, 3365, 3368, 3370, 3372, 3375, 3377, 3379, 3382, 3384,
    3386, 3389, 3391, 3393, 3395, 3398, 3400, 3402, 3404, 3407, 3409, 3411, 3413, 3416, 3418, 3420,
    3422, 3424, 3427, 3429, 3431, 3433, 3435, 3437, 3440, 3442, 3444, 3446, 3448, 3450, 3452, 3454,
    3457, 3459, 3461, 3463, 3465, 3467, 3469, 3471, 3473, 3475, 3477, 3479, 3481, 3484, 3486, 3488,
    3490, 3492, 3494, 3496, 3498, 3500, 3502, 3504, 3506, 3508, 3510, 3511, 3513, 3515, 3517, 3519,
    3521, 3523, 3525, 3527, 3529, 3531, 3533, 3535, 3536, 3538, 3540, 3542, 3544, 3546, 3548, 3550,
    3551, 3553, 3555, 3557, 3559, 3561, 3562, 3564, 3566, 3568, 3570, 3571, 3573, 3575, 3577, 3578,
    3580, 3582, 3584, 3585, 3587, 3589, 3591, 3592, 3594, 3596, 3598, 3599, 3601, 3603, 3604, 3606,
    3608, 3609, 3611, 3613, 3614, 3616, 3618, 3619, 3621, 3623, 3624, 3626, 3628, 3629, 3631, 3632,
    3634, 3636, 3637, 3639, 3640, 3642, 3644, 3645, 3647, 3648, 3650, 3651, 3653, 3654, 3656, 3657,
    3659, 3661, 3662, 3664, 3665, 3667, 3668, 3670, 3671, 3673, 3674, 3675, 3677, 3678, 3680, 3681,
    3683, 3684, 3686, 3687, 3689, 3690, 3691, 3693, 3694, 3696, 3697, 3698, 3700, 3701, 3703, 3704,
    3705, 3707, 3708, 3710, 3711, 3712, 3714, 3715, 3716, 3718, 3719, 3720, 3722, 3723, 3724, 3726,
    3727, 3728, 3730, 3731, 3732, 3733, 3735, 3736, 3737, 3739, 3740, 3741, 3742, 3744, 3745, 3746,
    3747, 3749, 3750, 3751, 3752, 3754, 3755, 3756, 3757, 3758, 3760, 3761, 3762, 3763, 3764, 3766,
    3767, 3768, 3769, 3770, 3772, 3773, 3774, 3775, 3776, 3777, 3778, 3780, 3781, 3782, 3783, 3784,
    3785, 3786, 3788, 3789, 3790, 3791, 3792, 3793, 3794, 3795, 3796, 3797, 3798, 3800, 3801, 3802,
    3803, 3804, 3805, 3806, 3807, 3808, 3809, 3810, 3811, 3812, 3813, 3814, 3815, 3816, 3817, 3818,
    3819, 3820, 3821, 3822, 3823, 3824, 3825, 3826, 3827, 3828, 3829, 3830, 3831, 3832, 3833, 3834,
    3835, 3836, 3837, 3838, 3839, 3840, 3841, 3842, 3843, 3843, 3844, 3845, 3846, 3847, 3848, 3849,
    3850, 3851, 3852, 3853, 3853, 3854, 3855, 3856, 3857, 3858, 3859, 3860, 3861, 3861, 3862, 3863,
    3864, 3865, 3866, 3867, 3867, 3868, 3869, 3870, 3871, 3872, 3872, 3873, 3874, 3875, 3876, 3876,
    3877, 3878, 3879, 3880, 3880, 3881, 3882, 3883, 3884, 3884, 3885, 3886, 3887, 3888, 3888, 3889,
    3890, 3891, 3891, 3892, 3893, 3894, 3894, 3895, 3896, 3897, 3897, 3898, 3899, 3900, 3900, 3901,
    3902, 3902, 3903, 3904, 3905, 3905, 3906, 3907, 3907, 3908, 3909, 3910, 3910, 3911, 3912, 3912,
    3913, 3914, 3914, 3915, 3916, 3916, 3917, 3918, 3918, 3919, 3920, 3920, 3921, 3922, 3922, 3923,
    3924, 3924, 3925, 3926, 3926, 3927, 3927, 3928, 3929, 3929, 3930, 3931, 3931, 3932, 3932, 3933,
    3934, 3934, 3935, 3935, 3936, 3937, 3937, 3938, 3938, 3939, 3940, 3940, 3941, 3941, 3942, 3943,
    3943, 3944, 3944, 3945, 3945, 3946, 3947, 3947, 3948, 3948, 3949, 3949, 3950, 3950, 3951, 3952,
    3952, 3953, 3953, 3954, 3954, 3955, 3955, 3956, 3956, 3957, 3957, 3958, 3958, 3959, 3959, 3960,
    3960, 3961, 3961, 3962, 3963, 3963, 3964, 3964, 3965, 3965, 3966, 3966, 3966, 3967, 3967, 3968,
    3968, 3969, 3969, 3970, 3970, 3971, 3971, 3972, 3972, 3973, 3973, 3974, 3974, 3975, 3975, 3975,
    3976, 3976, 3977, 3977, 3978, 3978, 3979, 3979, 3980, 3980, 3980, 3981, 3981, 3982, 3982, 3983,
    3983, 3983, 3984, 3984, 3985, 3985, 3986, 3986, 3986, 3987, 3987, 3988, 3988, 3988, 3989, 3989,
    3990, 3990, 3990, 3991, 3991, 3992, 3992, 3992, 3993, 3993, 3994, 3994, 3994, 3995, 3995, 3996,
    3996, 3996, 3997, 3997, 3997, 3998, 3998, 3999, 3999, 3999, 4000, 4000, 4000, 4001, 4001, 4002,
    4002, 4002, 4003, 4003, 4003, 4004, 4004, 4004, 4005, 4005, 4005, 4006, 4006, 4006, 4007, 4007,
    4007, 4008, 4008, 4008, 4009, 4009, 4009, 4010, 4010, 4010, 4011, 4011, 4011, 4012, 4012, 4012,
    4013, 4013, 4013, 4014, 4014, 4014, 4015, 4015, 4015, 4016, 4016, 4016, 4016, 4017, 4017, 4017,
    4018, 4018, 4018, 4019, 4019, 4019, 4019, 4020, 4020, 4020, 4021, 4021, 4021, 4021, 4022, 4022,
];
pub const LOGISTIC12_3: [i32; 1024] = [
    4022, 4023, 4023, 4023, 4023, 4024, 4024, 4024, 4025, 4025, 4025, 4025, 4026, 4026, 4026, 4026,
    4027, 4027, 4027, 4028, 4028, 4028, 4028, 4029, 4029, 4029, 4029, 4030, 4030, 4030, 4030, 4031,
    4031, 4031, 4031, 4032, 4032, 4032, 4032, 4033, 4033, 4033, 4033, 4034, 4034, 4034, 4034, 4034,
    4035, 4035, 4035, 4035, 4036, 4036, 4036, 4036, 4037, 4037, 4037, 4037, 4038, 4038, 4038, 4038,
    4038, 4039, 4039, 4039, 4039, 4039, 4040, 4040, 4040, 4040, 4041, 4041, 4041, 4041, 4041, 4042,
    4042, 4042, 4042, 4042, 4043, 4043, 4043, 4043, 4043, 4044, 4044, 4044, 4044, 4044, 4045, 4045,
    4045, 4045, 4045, 4046, 4046, 4046, 4046, 4046, 4047, 4047, 4047, 4047, 4047, 4048, 4048, 4048,
    4048, 4048, 4048, 4049, 4049, 4049, 4049, 4049, 4050, 4050, 4050, 4050, 4050, 4050, 4051, 4051,
    4051, 4051, 4051, 4052, 4052, 4052, 4052, 4052, 4052, 4053, 4053, 4053, 4053, 4053, 4053, 4054,
    4054, 4054, 4054, 4054, 4054, 4055, 4055, 4055, 4055, 4055, 4055, 4055, 4056, 4056, 4056, 4056,
    4056, 4056, 4057, 4057, 4057, 4057, 4057, 4057, 4057, 4058, 4058, 4058, 4058, 4058, 4058, 4058,
    4059, 4059, 4059, 4059, 4059, 4059, 4059, 4060, 4060, 4060, 4060, 4060, 4060, 4060, 4061, 4061,
    4061, 4061, 4061, 4061, 4061, 4062, 4062, 4062, 4062, 4062, 4062, 4062, 4062, 4063, 4063, 4063,
    4063, 4063, 4063, 4063, 4063, 4064, 4064, 4064, 4064, 4064, 4064, 4064, 4064, 4065, 4065, 4065,
    4065, 4065, 4065, 4065, 4065, 4066, 4066, 4066, 4066, 4066, 4066, 4066, 4066, 4066, 4067, 4067,
    4067, 4067, 4067, 4067, 4067, 4067, 4068, 4068, 4068, 4068, 4068, 4068, 4068, 4068, 4068, 4068,
    4069, 4069, 4069, 4069, 4069, 4069, 4069, 4069, 4069, 4070, 4070, 4070, 4070, 4070, 4070, 4070,
    4070, 4070, 4070, 4071, 4071, 4071, 4071, 4071, 4071, 4071, 4071, 4071, 4071, 4072, 4072, 4072,
    4072, 4072, 4072, 4072, 4072, 4072, 4072, 4072, 4073, 4073, 4073, 4073, 4073, 4073, 4073, 4073,
    4073, 4073, 4073, 4074, 4074, 4074, 4074, 4074, 4074, 4074, 4074, 4074, 4074, 4074, 4074, 4075,
    4075, 4075, 4075, 4075, 4075, 4075, 4075, 4075, 4075, 4075, 4075, 4076, 4076, 4076, 4076, 4076,
    4076, 4076, 4076, 4076, 4076, 4076, 4076, 4076, 4077, 4077, 4077, 4077, 4077, 4077, 4077, 4077,
    4077, 4077, 4077, 4077, 4077, 4077, 4078, 4078, 4078, 4078, 4078, 4078, 4078, 4078, 4078, 4078,
    4078, 4078, 4078, 4078, 4079, 4079, 4079, 4079, 4079, 4079, 4079, 4079, 4079, 4079, 4079, 4079,
    4079, 4079, 4079, 4080, 4080, 4080, 4080, 4080, 4080, 4080, 4080, 4080, 4080, 4080, 4080, 4080,
    4080, 4080, 4080, 4081, 4081, 4081, 4081, 4081, 4081, 4081, 4081, 4081, 4081, 4081, 4081, 4081,
    4081, 4081, 4081, 4081, 4082, 4082, 4082, 4082, 4082, 4082, 4082, 4082, 4082, 4082, 4082, 4082,
    4082, 4082, 4082, 4082, 4082, 4082, 4082, 4083, 4083, 4083, 4083, 4083, 4083, 4083, 4083, 4083,
    4083, 4083, 4083, 4083, 4083, 4083, 4083, 4083, 4083, 4083, 4084, 4084, 4084, 4084, 4084, 4084,
    4084, 4084, 4084, 4084, 4084, 4084, 4084, 4084, 4084, 4084, 4084, 4084, 4084, 4084, 4084, 4084,
    4085, 4085, 4085, 4085, 4085, 4085, 4085, 4085, 4085, 4085, 4085, 4085, 4085, 4085, 4085, 4085,
    4085, 4085, 4085, 4085, 4085, 4085, 4085, 4086, 4086, 4086, 4086, 4086, 4086, 4086, 4086, 4086,
    4086, 4086, 4086, 4086, 4086, 4086, 4086, 4086, 4086, 4086, 4086, 4086, 4086, 4086, 4086, 4086,
    4086, 4087, 4087, 4087, 4087, 4087, 4087, 4087, 4087, 4087, 4087, 4087, 4087, 4087, 4087, 4087,
    4087, 4087, 4087, 4087, 4087, 4087, 4087, 4087, 4087, 4087, 4087, 4087, 4087, 4088, 4088, 4088,
    4088, 4088, 4088, 4088, 4088, 4088, 4088, 4088, 4088, 4088, 4088, 4088, 4088, 4088, 4088, 4088,
    4088, 4088, 4088, 4088, 4088, 4088, 4088, 4088, 4088, 4088, 4088, 4088, 4088, 4088, 4089, 4089,
    4089, 4089, 4089, 4089, 4089, 4089, 4089, 4089, 4089, 4089, 4089, 4089, 4089, 4089, 4089, 4089,
    4089, 4089, 4089, 4089, 4089, 4089, 4089, 4089, 4089, 4089, 4089, 4089, 4089, 4089, 4089, 4089,
    4089, 4089, 4090, 4090, 4090, 4090, 4090, 4090, 4090, 4090, 4090, 4090, 4090, 4090, 4090, 4090,
    4090, 4090, 4090, 4090, 4090, 4090, 4090, 4090, 4090, 4090, 4090, 4090, 4090, 4090, 4090, 4090,
    4090, 4090, 4090, 4090, 4090, 4090, 4090, 4090, 4090, 4090, 4090, 4090, 4090, 4091, 4091, 4091,
    4091, 4091, 4091, 4091, 4091, 4091, 4091, 4091, 4091, 4091, 4091, 4091, 4091, 4091, 4091, 4091,
    4091, 4091, 4091, 4091, 4091, 4091, 4091, 4091, 4091, 4091, 4091, 4091, 4091, 4091, 4091, 4091,
    4091, 4091, 4091, 4091, 4091, 4091, 4091, 4091, 4091, 4091, 4091, 4091, 4091, 4091, 4091, 4091,
    4091, 4092, 4092, 4092, 4092, 4092, 4092, 4092, 4092, 4092, 4092, 4092, 4092, 4092, 4092, 4092,
    4092, 4092, 4092, 4092, 4092, 4092, 4092, 4092, 4092, 4092, 4092, 4092, 4092, 4092, 4092, 4092,
    4092, 4092, 4092, 4092, 4092, 4092, 4092, 4092, 4092, 4092, 4092, 4092, 4092, 4092, 4092, 4092,
    4092, 4092, 4092, 4092, 4092, 4092, 4092, 4092, 4092, 4092, 4092, 4092, 4092, 4092, 4092, 4092,
    4092, 4093, 4093, 4093, 4093, 4093, 4093, 4093, 4093, 4093, 4093, 4093, 4093, 4093, 4093, 4093,
    4093, 4093, 4093, 4093, 4093, 4093, 4093, 4093, 4093, 4093, 4093, 4093, 4093, 4093, 4093, 4093,
    4093, 4093, 4093, 4093, 4093, 4093, 4093, 4093, 4093, 4093, 4093, 4093, 4093, 4093, 4093, 4093,
    4093, 4093, 4093, 4093, 4093, 4093, 4093, 4093, 4093, 4093, 4093, 4093, 4093, 4093, 4093, 4093,
    4093, 4093, 4093, 4093, 4093, 4093, 4093, 4093, 4093, 4093, 4093, 4093, 4093, 4093, 4093, 4093,
    4093, 4093, 4093, 4093, 4093, 4093, 4093, 4094, 4094, 4094, 4094, 4094, 4094, 4094, 4094, 4094,
    4094, 4094, 4094, 4094, 4094, 4094, 4094, 4094, 4094, 4094, 4094, 4094, 4094, 4094, 4094, 4094,
    4094, 4094, 4094, 4094, 4094, 4094, 4094, 4094, 4094, 4094, 4094, 4094, 4094, 4094, 4094, 4094,
    4094, 4094, 4094, 4094, 4094, 4094, 4094, 4094, 4094, 4094, 4094, 4094, 4094, 4094, 4094, 4094,
    4094, 4094, 4094, 4094, 4094, 4094, 4094, 4094, 4094, 4094, 4094, 4094, 4094, 4094, 4094, 4094,
    4094, 4094, 4094, 4094, 4094, 4094, 4094, 4094, 4094, 4094, 4094, 4094, 4094, 4094, 4094, 4094,
    4094, 4094, 4094, 4094, 4094, 4094, 4094, 4094, 4094, 4094, 4094, 4094, 4094, 4094, 4094, 4094,
    4094, 4094, 4094, 4094, 4094, 4094, 4094, 4094, 4094, 4094, 4094, 4094, 4094, 4094, 4094, 4094,
    4094, 4094, 4094, 4094, 4094, 4094, 4094, 4094, 4094, 4094, 4095, 4095, 4095, 4095, 4095, 4095,
    4095, 4095, 4095, 4095, 4095, 4095, 4095, 4095, 4095, 4095, 4095, 4095, 4095, 4095, 4095, 4095,
];

/// Blocks of round(65536 / (1 + e^(-(i - 2048) / 256))) for i in 0..4096.
pub const LOGISTIC16_0: [i32; 1024] = [
    22, 22, 22, 22, 22, 22, 22, 23, 23, 23, 23, 23, 23, 23, 23, 23,
    23, 23, 24, 24, 24, 24, 24, 24, 24, 24, 24, 24, 25, 25, 25, 25,
    25, 25, 25, 25, 25, 25, 25, 26, 26, 26, 26, 26, 26, 26, 26, 26,
    27, 27, 27, 27, 27, 27, 27, 27, 27, 27, 28, 28, 28, 28, 28, 28,
    28, 28, 28, 29, 29, 29, 29, 29, 29, 29, 29, 29, 30, 30, 30, 30,
    30, 30, 30, 30, 31, 31, 31, 31, 31, 31, 31, 31, 31, 32, 32, 32,
    32, 32, 32, 32, 32, 33, 33, 33, 33, 33, 33, 33, 34, 34, 34, 34,
    34, 34, 34, 34, 35, 35, 35, 35, 35, 35, 35, 36, 36, 36, 36, 36,
    36, 36, 37, 37, 37, 37, 37, 37, 37, 38, 38, 38, 38, 38, 38, 38,
    39, 39, 39, 39, 39, 39, 39, 40, 40, 40, 40, 40, 40, 41, 41, 41,
    41, 41, 41, 42, 42, 42, 42, 42, 42, 43, 43, 43, 43, 43, 43, 44,
    44, 44, 44, 44, 44, 45, 45, 45, 45, 45, 45, 46, 46, 46, 46, 46,
    47, 47, 47, 47, 47, 47, 48, 48, 48, 48, 48, 49, 49, 49, 49, 49,
    50, 50, 50, 50, 50, 50, 51, 51, 51, 51, 51, 52, 52, 52, 52, 52,
    53, 53, 53, 53, 54, 54, 54, 54, 54, 55, 55, 55, 55, 55, 56, 56,
    56, 56, 57, 57, 57, 57, 57, 58, 58, 58, 58, 59, 59, 59, 59, 59,
    60, 60, 60, 60, 61, 61, 61, 61, 62, 62, 62, 62, 63, 63, 63, 63,
    64, 64, 64, 64, 65, 65, 65, 65, 66, 66, 66, 66, 67, 67, 67, 67,
    68, 68, 68, 68, 69, 69, 69, 70, 70, 70, 70, 71, 71, 71, 71, 72,
    72, 72, 73, 73, 73, 73, 74, 74, 74, 75, 75, 75, 75, 76, 76, 76,
    77, 77, 77, 78, 78, 78, 78, 79, 79, 79, 80, 80, 80, 81, 81, 81,
    82, 82, 82, 83, 83, 83, 84, 84, 84, 84, 85, 85, 85, 86, 86, 86,
    87, 87, 88, 88, 88, 89, 89, 89, 90, 90, 90, 91, 91, 91, 92, 92,
    92, 93, 93, 94, 94, 94, 95, 95, 95, 96, 96, 96, 97, 97, 98, 98,
    98, 99, 99, 100, 100, 100, 101, 101, 101, 102, 102, 103, 103, 103, 104, 104,
    105, 105, 106, 106, 106, 107, 107, 108, 108, 108, 109, 109, 110, 110, 111, 111,
    111, 112, 112, 113, 113, 114, 114, 115, 115, 115, 116, 116, 117, 117, 118, 118,
    119, 119, 120, 120, 120, 121, 121, 122, 122, 123, 123, 124, 124, 125, 125, 126,
    126, 127, 127, 128, 128, 129, 129, 130, 130, 131, 131, 132, 132, 133, 133, 134,
    134, 135, 135, 136, 137, 137, 138, 138, 139, 139, 140, 140, 141, 141, 142, 142,
    143, 144, 144, 145, 145, 146, 146, 147, 148, 148, 149, 149, 150, 150, 151, 152,
    152, 153, 153, 154, 155, 155, 156, 156, 157, 158, 158, 159, 160, 160, 161, 161,
    162, 163, 163, 164, 165, 165, 166, 167, 167, 168, 168, 169, 170, 170, 171, 172,
    172, 173, 174, 174, 175, 176, 177, 177, 178, 179, 179, 180, 181, 181, 182, 183,
    184, 184, 185, 186, 186, 187, 188, 189, 189, 190, 191, 192, 192, 193, 194, 195,
    195, 196, 197, 198, 198, 199, 200, 201, 202, 202, 203, 204, 205, 206, 206, 207,
    208, 209, 210, 210, 211, 212, 213, 214, 215, 215, 216, 217, 218, 219, 220, 220,
    221, 222, 223, 224, 225, 226, 227, 227, 228, 229, 230, 231, 232, 233, 234, 235,
    236, 236, 237, 238, 239, 240, 241, 242, 243, 244, 245, 246, 247, 248, 249, 250,
    251, 252, 253, 254, 255, 256, 257, 258, 259, 260, 261, 262, 263, 264, 265, 266,
    267, 268, 269, 270, 271, 272, 273, 274, 275, 276, 277, 278, 279, 281, 282, 283,
    284, 285, 286, 287, 288, 289, 291, 292, 293, 294, 295, 296, 297, 299, 300, 301,
    302, 303, 304, 306, 307, 308, 309, 310, 312, 313, 314, 315, 317, 318, 319, 320,
    321, 323, 324, 325, 327, 328, 329, 330, 332, 333, 334, 336, 337, 338, 339, 341,
    342, 343, 345, 346, 347, 349, 350, 352, 353, 354, 356, 357, 358, 360, 361, 363,
    364, 365, 367, 368, 370, 371, 373, 374, 376, 377, 378, 380, 381, 383, 384, 386,
    387, 389, 390, 392, 393, 395, 397, 398, 400, 401, 403, 404, 406, 407, 409, 411,
    412, 414, 415, 417, 419, 420, 422, 424, 425, 427, 429, 430, 432, 434, 435, 437,
    439, 440, 442, 444, 445, 447, 449, 451, 452, 454, 456, 458, 460, 461, 463, 465,
    467, 469, 470, 472, 474, 476, 478, 480, 481, 483, 485, 487, 489, 491, 493, 495,
    497, 499, 500, 502, 504, 506, 508, 510, 512, 514, 516, 518, 520, 522, 524, 526,
    528, 530, 532, 535, 537, 539, 541, 543, 545, 547, 549, 551, 553, 556, 558, 560,
    562, 564, 567, 569, 571, 573, 575, 578, 580, 582, 584, 587, 589, 591, 593, 596,
    598, 600, 603, 605, 607, 610, 612, 614, 617, 619, 622, 624, 626, 629, 631, 634,
    636, 639, 641, 644, 646, 649, 651, 654, 656, 659, 661, 664, 666, 669, 672, 674,
    677, 679, 682, 685, 687, 690, 693, 695, 698, 701, 704, 706, 709, 712, 714, 717,
    720, 723, 726, 728, 731, 734, 737, 740, 743, 746, 748, 751, 754, 757, 760, 763,
    766, 769, 772, 775, 778, 781, 784, 787, 790, 793, 796, 799, 802, 805, 808, 812,
    815, 818, 821, 824, 827, 831, 834, 837, 840, 843, 847, 850, 853, 857, 860, 863,
    867, 870, 873, 877, 880, 883, 887, 890, 894, 897, 901, 904, 908, 911, 915, 918,
    922, 925, 929, 932, 936, 940, 943, 947, 951, 954, 958, 962, 965, 969, 973, 976,
    980, 984, 988, 992, 995, 999, 1003, 1007, 1011, 1015, 1019, 1023, 1027, 1030, 1034, 1038,
    1042, 1046, 1050, 1055, 1059, 1063, 1067, 1071, 1075, 1079, 1083, 1087, 1092, 1096, 1100, 1104,
    1109, 1113, 1117, 1121, 1126, 1130, 1134, 1139, 1143, 1148, 1152, 1156, 1161, 1165, 1170, 1174,
];
pub const LOGISTIC16_1: [i32; 1024] = [
    1179, 1183, 1188, 1192, 1197, 1202, 1206, 1211, 1215, 1220, 1225, 1230, 1234, 1239, 1244, 1249,
    1253, 1258, 1263, 1268, 1273, 1278, 1282, 1287, 1292, 1297, 1302, 1307, 1312, 1317, 1322, 1327,
    1333, 1338, 1343, 1348, 1353, 1358, 1363, 1369, 1374, 1379, 1384, 1390, 1395, 1400, 1406, 1411,
    1417, 1422, 1427, 1433, 1438, 1444, 1449, 1455, 1461, 1466, 1472, 1477, 1483, 1489, 1494, 1500,
    1506, 1512, 1517, 1523, 1529, 1535, 1541, 1547, 1553, 1558, 1564, 1570, 1576, 1582, 1588, 1595,
    1601, 1607, 1613, 1619, 1625, 1631, 1638, 1644, 1650, 1656, 1663, 1669, 1675, 1682, 1688, 1695,
    1701, 1708, 1714, 1721, 1727, 1734, 1740, 1747, 1754, 1760, 1767, 1774, 1781, 1787, 1794, 1801,
    1808, 1815, 1822, 1829, 1836, 1842, 1849, 1857, 1864, 1871, 1878, 1885, 1892, 1899, 1906, 1914,
    1921, 1928, 1936, 1943, 1950, 1958, 1965, 1973, 1980, 1988, 1995, 2003, 2010, 2018, 2026, 2033,
    2041, 2049, 2057, 2064, 2072, 2080, 2088, 2096, 2104, 2112, 2120, 2128, 2136, 2144, 2152, 2160,
    2168, 2177, 2185, 2193, 2201, 2210, 2218, 2226, 2235, 2243, 2252, 2260, 2269, 2277, 2286, 2295,
    2303, 2312, 2321, 2329, 2338, 2347, 2356, 2365, 2374, 2383, 2392, 2401, 2410, 2419, 2428, 2437,
    2446, 2455, 2465, 2474, 2483, 2493, 2502, 2511, 2521, 2530, 2540, 2549, 2559, 2569, 2578, 2588,
    2598, 2608, 2617, 2627, 2637, 2647, 2657, 2667, 2677, 2687, 2697, 2707, 2717, 2727, 2738, 2748,
    2758, 2769, 2779, 2789, 2800, 2810, 2821, 2831, 2842, 2853, 2863, 2874, 2885, 2896, 2906, 2917,
    2928, 2939, 2950, 2961, 2972, 2983, 2994, 3006, 3017, 3028, 3039, 3051, 3062, 3074, 3085, 3097,
    3108, 3120, 3131, 3143, 3155, 3166, 3178, 3190, 3202, 3214, 3226, 3238, 3250, 3262, 3274, 3286,
    3298, 3311, 3323, 3335, 3348, 3360, 3373, 3385, 3398, 3410, 3423, 3436, 3448, 3461, 3474, 3487,
    3500, 3513, 3526, 3539, 3552, 3565, 3578, 3592, 3605, 3618, 3632, 3645, 3658, 3672, 3686, 3699,
    3713, 3726, 3740, 3754, 3768, 3782, 3796, 3810, 3824, 3838, 3852, 3866, 3880, 3895, 3909, 3923,
    3938, 3952, 3967, 3981, 3996, 4011, 4025, 4040, 4055, 4070, 4085, 4100, 4115, 4130, 4145, 4160,
    4176, 4191, 4206, 4222, 4237, 4253, 4268, 4284, 4299, 4315, 4331, 4347, 4363, 4379, 4395, 4411,
    4427, 4443, 4459, 4475, 4492, 4508, 4524, 4541, 4557, 4574, 4591, 4607, 4624, 4641, 4658, 4675,
    4692, 4709, 4726, 4743, 4760, 4778, 4795, 4812, 4830, 4847, 4865, 4882, 4900, 4918, 4936, 4954,
    4971, 4989, 5007, 5026, 5044, 5062, 5080, 5099, 5117, 5135, 5154, 5172, 5191, 5210, 5229, 5247,
    5266, 5285, 5304, 5323, 5342, 5362, 5381, 5400, 5420, 5439, 5459, 5478, 5498, 5518, 5537, 5557,
    5577, 5597, 5617, 5637, 5657, 5678, 5698, 5718, 5739, 5759, 5780, 5800, 5821, 5842, 5862, 5883,
    5904, 5925, 5946, 5968, 5989, 6010, 6031, 6053, 6074, 6096, 6118, 6139, 6161, 6183, 6205, 6227,
    6249, 6271, 6293, 6315, 6338, 6360, 6383, 6405, 6428, 6450, 6473, 6496, 6519, 6542, 6565, 6588,
    6611, 6634, 6658, 6681, 6705, 6728, 6752, 6776, 6799, 6823, 6847, 6871, 6895, 6919, 6943, 6968,
    6992, 7017, 7041, 7066, 7090, 7115, 7140, 7165, 7190, 7215, 7240, 7265, 7290, 7316, 7341, 7367,
    7392, 7418, 7444, 7469, 7495, 7521, 7547, 7573, 7600, 7626, 7652, 7679, 7705, 7732, 7758, 7785,
    7812, 7839, 7866, 7893, 7920, 7947, 7975, 8002, 8030, 8057, 8085, 8113, 8140, 8168, 8196, 8224,
    8252, 8281, 8309, 8337, 8366, 8394, 8423, 8452, 8481, 8509, 8538, 8567, 8597, 8626, 8655, 8684,
    8714, 8743, 8773, 8803, 8833, 8863, 8893, 8923, 8953, 8983, 9013, 9044, 9074, 9105, 9135, 9166,
    9197, 9228, 9259, 9290, 9321, 9353, 9384, 9415, 9447, 9479, 9510, 9542, 9574, 9606, 9638, 9670,
    9702, 9735, 9767, 9800, 9832, 9865, 9898, 9931, 9964, 9997, 10030, 10063, 10096, 10130, 10163, 10197,
    10230, 10264, 10298, 10332, 10366, 10400, 10434, 10469, 10503, 10538, 10572, 10607, 10642, 10677, 10712, 10747,
    10782, 10817, 10852, 10888, 10923, 10959, 10995, 11030, 11066, 11102, 11138, 11174, 11211, 11247, 11283, 11320,
    11357, 11393, 11430, 11467, 11504, 11541, 11578, 11616, 11653, 11690, 11728, 11766, 11803, 11841, 11879, 11917,
    11955, 11994, 12032, 12070, 12109, 12148, 12186, 12225, 12264, 12303, 12342, 12381, 12420, 12460, 12499, 12539,
    12579, 12618, 12658, 12698, 12738, 12778, 12818, 12859, 12899, 12940, 12980, 13021, 13062, 13103, 13144, 13185,
    13226, 13267, 13309, 13350, 13392, 13433, 13475, 13517, 13559, 13601, 13643, 13685, 13728, 13770, 13813, 13855,
    13898, 13941, 13984, 14027, 14070, 14113, 14157, 14200, 14243, 14287, 14331, 14375, 14418, 14462, 14506, 14551,
    14595, 14639, 14684, 14728, 14773, 14818, 14862, 14907, 14952, 14998, 15043, 15088, 15134, 15179, 15225, 15270,
    15316, 15362, 15408, 15454, 15500, 15547, 15593, 15639, 15686, 15733, 15779, 15826, 15873, 15920, 15967, 16015,
    16062, 16109, 16157, 16204, 16252, 16300, 16348, 16396, 16444, 16492, 16540, 16589, 16637, 16686, 16734, 16783,
    16832, 16881, 16930, 16979, 17028, 17077, 17127, 17176, 17226, 17275, 17325, 17375, 17425, 17475, 17525, 17575,
    17625, 17676, 17726, 17777, 17827, 17878, 17929, 17980, 18031, 18082, 18133, 18184, 18236, 18287, 18339, 18390,
    18442, 18494, 18546, 18598, 18650, 18702, 18754, 18807, 18859, 18912, 18964, 19017, 19070, 19123, 19176, 19229,
    19282, 19335, 19388, 19442, 19495, 19549, 19602, 19656, 19710, 19764, 19818, 19872, 19926, 19980, 20034, 20089,
    20143, 20198, 20252, 20307, 20362, 20417, 20471, 20527, 20582, 20637, 20692, 20747, 20803, 20858, 20914, 20970,
    21025, 21081, 21137, 21193, 21249, 21305, 21361, 21418, 21474, 21531, 21587, 21644, 21700, 21757, 21814, 21871,
    21928, 21985, 22042, 22099, 22156, 22214, 22271, 22328, 22386, 22444, 22501, 22559, 22617, 22675, 22733, 22791,
    22849, 22907, 22965, 23024, 23082, 23140, 23199, 23257, 23316, 23375, 23434, 23492, 23551, 23610, 23669, 23728,
    23788, 23847, 23906, 23965, 24025, 24084, 24144, 24203, 24263, 24323, 24383, 24442, 24502, 24562, 24622, 24682,
    24743, 24803, 24863, 24923, 24984, 25044, 25104, 25165, 25226, 25286, 25347, 25408, 25468, 25529, 25590, 25651,
    25712, 25773, 25834, 25896, 25957, 26018, 26079, 26141, 26202, 26264, 26325, 26387, 26448, 26510, 26571, 26633,
    26695, 26757, 26819, 26881, 26943, 27005, 27067, 27129, 27191, 27253, 27315, 27377, 27440, 27502, 27564, 27627,
    27689, 27752, 27814, 27877, 27939, 28002, 28065, 28127, 28190, 28253, 28316, 28379, 28441, 28504, 28567, 28630,
    28693, 28756, 28819, 28882, 28945, 29009, 29072, 29135, 29198, 29261, 29325, 29388, 29451, 29515, 29578, 29642,
    29705, 29768, 29832, 29895, 29959, 30022, 30086, 30150, 30213, 30277, 30340, 30404, 30468, 30531, 30595, 30659,
    30723, 30786, 30850, 30914, 30978, 31042, 31105, 31169, 31233, 31297, 31361, 31425, 31489, 31553, 31616, 31680,
    31744, 31808, 31872, 31936, 32000, 32064, 32128, 32192, 32256, 32320, 32384, 32448, 32512, 32576, 32640, 32704,
];
pub const LOGISTIC16_2: [i32; 1024] = [
    32768, 32832, 32896, 32960, 33024, 33088, 33152, 33216, 33280, 33344, 33408, 33472, 33536, 33600, 33664, 33728,
    33792, 33856, 33920, 33983, 34047, 34111, 34175, 34239, 34303, 34367, 34431, 34494, 34558, 34622, 34686, 34750,
    34813, 34877, 34941, 35005, 35068, 35132, 35196, 35259, 35323, 35386, 35450, 35514, 35577, 35641, 35704, 35768,
    35831, 35894, 35958, 36021, 36085, 36148, 36211, 36275, 36338, 36401, 36464, 36527, 36591, 36654, 36717, 36780,
    36843, 36906, 36969, 37032, 37095, 37157, 37220, 37283, 37346, 37409, 37471, 37534, 37597, 37659, 37722, 37784,
    37847, 37909, 37972, 38034, 38096, 38159, 38221, 38283, 38345, 38407, 38469, 38531, 38593, 38655, 38717, 38779,
    38841, 38903, 38965, 39026, 39088, 39149, 39211, 39272, 39334, 39395, 39457, 39518, 39579, 39640, 39702, 39763,
    39824, 39885, 39946, 40007, 40068, 40128, 40189, 40250, 40310, 40371, 40432, 40492, 40552, 40613, 40673, 40733,
    40793, 40854, 40914, 40974, 41034, 41094, 41153, 41213, 41273, 41333, 41392, 41452, 41511, 41571, 41630, 41689,
    41748, 41808, 41867, 41926, 41985, 42044, 42102, 42161, 42220, 42279, 42337, 42396, 42454, 42512, 42571, 42629,
    42687, 42745, 42803, 42861, 42919, 42977, 43035, 43092, 43150, 43208, 43265, 43322, 43380, 43437, 43494, 43551,
    43608, 43665, 43722, 43779, 43836, 43892, 43949, 44005, 44062, 44118, 44175, 44231, 44287, 44343, 44399, 44455,
    44511, 44566, 44622, 44678, 44733, 44789, 44844, 44899, 44954, 45009, 45065, 45119, 45174, 45229, 45284, 45338,
    45393, 45447, 45502, 45556, 45610, 45664, 45718, 45772, 45826, 45880, 45934, 45987, 46041, 46094, 46148, 46201,
    46254, 46307, 46360, 46413, 46466, 46519, 46572, 46624, 46677, 46729, 46782, 46834, 46886, 46938, 46990, 47042,
    47094, 47146, 47197, 47249, 47300, 47352, 47403, 47454, 47505, 47556, 47607, 47658, 47709, 47759, 47810, 47860,
    47911, 47961, 48011, 48061, 48111, 48161, 48211, 48261, 48310, 48360, 48409, 48459, 48508, 48557, 48606, 48655,
    48704, 48753, 48802, 48850, 48899, 48947, 48996, 49044, 49092, 49140, 49188, 49236, 49284, 49332, 49379, 49427,
    49474, 49521, 49569, 49616, 49663, 49710, 49757, 49803, 49850, 49897, 49943, 49989, 50036, 50082, 50128, 50174,
    50220, 50266, 50311, 50357, 50402, 50448, 50493, 50538, 50584, 50629, 50674, 50718, 50763, 50808, 50852, 50897,
    50941, 50985, 51030, 51074, 51118, 51161, 51205, 51249, 51293, 51336, 51379, 51423, 51466, 51509, 51552, 51595,
    51638, 51681, 51723, 51766, 51808, 51851, 51893, 51935, 51977, 52019, 52061, 52103, 52144, 52186, 52227, 52269,
    52310, 52351, 52392, 52433, 52474, 52515, 52556, 52596, 52637, 52677, 52718, 52758, 52798, 52838, 52878, 52918,
    52957, 52997, 53037, 53076, 53116, 53155, 53194, 53233, 53272, 53311, 53350, 53388, 53427, 53466, 53504, 53542,
    53581, 53619, 53657, 53695, 53733, 53770, 53808, 53846, 53883, 53920, 53958, 53995, 54032, 54069, 54106, 54143,
    54179, 54216, 54253, 54289, 54325, 54362, 54398, 54434, 54470, 54506, 54541, 54577, 54613, 54648, 54684, 54719,
    54754, 54789, 54824, 54859, 54894, 54929, 54964, 54998, 55033, 55067, 55102, 55136, 55170, 55204, 55238, 55272,
    55306, 55339, 55373, 55406, 55440, 55473, 55506, 55539, 55572, 55605, 55638, 55671, 55704, 55736, 55769, 55801,
    55834, 55866, 55898, 55930, 55962, 55994, 56026, 56057, 56089, 56121, 56152, 56183, 56215, 56246, 56277, 56308,
    56339, 56370, 56401, 56431, 56462, 56492, 56523, 56553, 56583, 56613, 56643, 56673, 56703, 56733, 56763, 56793,
    56822, 56852, 56881, 56910, 56939, 56969, 56998, 57027, 57055, 57084, 57113, 57142, 57170, 57199, 57227, 57255,
    57284, 57312, 57340, 57368, 57396, 57423, 57451, 57479, 57506, 57534, 57561, 57589, 57616, 57643, 57670, 57697,
    57724, 57751, 57778, 57804, 57831, 57857, 57884, 57910, 57936, 57963, 57989, 58015, 58041, 58067, 58092, 58118,
    58144, 58169, 58195, 58220, 58246, 58271, 58296, 58321, 58346, 58371, 58396, 58421, 58446, 58470, 58495, 58519,
    58544, 58568, 58593, 58617, 58641, 58665, 58689, 58713, 58737, 58760, 58784, 58808, 58831, 58855, 58878, 58902,
    58925, 58948, 58971, 58994, 59017, 59040, 59063, 59086, 59108, 59131, 59153, 59176, 59198, 59221, 59243, 59265,
    59287, 59309, 59331, 59353, 59375, 59397, 59418, 59440, 59462, 59483, 59505, 59526, 59547, 59568, 59590, 59611,
    59632, 59653, 59674, 59694, 59715, 59736, 59756, 59777, 59797, 59818, 59838, 59858, 59879, 59899, 59919, 59939,
    59959, 59979, 59999, 60018, 60038, 60058, 60077, 60097, 60116, 60136, 60155, 60174, 60194, 60213, 60232, 60251,
    60270, 60289, 60307, 60326, 60345, 60364, 60382, 60401, 60419, 60437, 60456, 60474, 60492, 60510, 60529, 60547,
    60565, 60582, 60600, 60618, 60636, 60654, 60671, 60689, 60706, 60724, 60741, 60758, 60776, 60793, 60810, 60827,
    60844, 60861, 60878, 60895, 60912, 60929, 60945, 60962, 60979, 60995, 61012, 61028, 61044, 61061, 61077, 61093,
    61109, 61125, 61141, 61157, 61173, 61189, 61205, 61221, 61237, 61252, 61268, 61283, 61299, 61314, 61330, 61345,
    61360, 61376, 61391, 61406, 61421, 61436, 61451, 61466, 61481, 61496, 61511, 61525, 61540, 61555, 61569, 61584,
    61598, 61613, 61627, 61641, 61656, 61670, 61684, 61698, 61712, 61726, 61740, 61754, 61768, 61782, 61796, 61810,
    61823, 61837, 61850, 61864, 61878, 61891, 61904, 61918, 61931, 61944, 61958, 61971, 61984, 61997, 62010, 62023,
    62036, 62049, 62062, 62075, 62088, 62100, 62113, 62126, 62138, 62151, 62163, 62176, 62188, 62201, 62213, 62225,
    62238, 62250, 62262, 62274, 62286, 62298, 62310, 62322, 62334, 62346, 62358, 62370, 62381, 62393, 62405, 62416,
    62428, 62439, 62451, 62462, 62474, 62485, 62497, 62508, 62519, 62530, 62542, 62553, 62564, 62575, 62586, 62597,
    62608, 62619, 62630, 62640, 62651, 62662, 62673, 62683, 62694, 62705, 62715, 62726, 62736, 62747, 62757, 62767,
    62778, 62788, 62798, 62809, 62819, 62829, 62839, 62849, 62859, 62869, 62879, 62889, 62899, 62909, 62919, 62928,
    62938, 62948, 62958, 62967, 62977, 62987, 62996, 63006, 63015, 63025, 63034, 63043, 63053, 63062, 63071, 63081,
    63090, 63099, 63108, 63117, 63126, 63135, 63144, 63153, 63162, 63171, 63180, 63189, 63198, 63207, 63215, 63224,
    63233, 63241, 63250, 63259, 63267, 63276, 63284, 63293, 63301, 63310, 63318, 63326, 63335, 63343, 63351, 63359,
    63368, 63376, 63384, 63392, 63400, 63408, 63416, 63424, 63432, 63440, 63448, 63456, 63464, 63472, 63479, 63487,
    63495, 63503, 63510, 63518, 63526, 63533, 63541, 63548, 63556, 63563, 63571, 63578, 63586, 63593, 63600, 63608,
    63615, 63622, 63630, 63637, 63644, 63651, 63658, 63665, 63672, 63679, 63687, 63694, 63700, 63707, 63714, 63721,
    63728, 63735, 63742, 63749, 63755, 63762, 63769, 63776, 63782, 63789, 63796, 63802, 63809, 63815, 63822, 63828,
    63835, 63841, 63848, 63854, 63861, 63867, 63873, 63880, 63886, 63892, 63898, 63905, 63911, 63917, 63923, 63929,
    63935, 63941, 63948, 63954, 63960, 63966, 63972, 63978, 63983, 63989, 63995, 64001, 64007, 64013, 64019, 64024,
    64030, 64036, 64042, 64047, 64053, 64059, 64064, 64070, 64075, 64081, 64087, 64092, 64098, 64103, 64109, 64114,
    64119, 64125, 64130, 64136, 64141, 64146, 64152, 64157, 64162, 64167, 64173, 64178, 64183, 64188, 64193, 64198,
    64203, 64209, 64214, 64219, 64224, 64229, 64234, 64239, 64244, 64249, 64254, 64258, 64263, 64268, 64273, 64278,
    64283, 64287, 64292, 64297, 64302, 64306, 64311, 64316, 64321, 64325, 64330, 64334, 64339, 64344, 64348, 64353,
];
pub const LOGISTIC16_3: [i32; 1024] = [
    64357, 64362, 64366, 64371, 64375, 64380, 64384, 64388, 64393, 64397, 64402, 64406, 64410, 64415, 64419, 64423,
    64427, 64432, 64436, 64440, 64444, 64449, 64453, 64457, 64461, 64465, 64469, 64473, 64477, 64481, 64486, 64490,
    64494, 64498, 64502, 64506, 64509, 64513, 64517, 64521, 64525, 64529, 64533, 64537, 64541, 64544, 64548, 64552,
    64556, 64560, 64563, 64567, 64571, 64574, 64578, 64582, 64585, 64589, 64593, 64596, 64600, 64604, 64607, 64611,
    64614, 64618, 64621, 64625, 64628, 64632, 64635, 64639, 64642, 64646, 64649, 64653, 64656, 64659, 64663, 64666,
    64669, 64673, 64676, 64679, 64683, 64686, 64689, 64693, 64696, 64699, 64702, 64705, 64709, 64712, 64715, 64718,
    64721, 64724, 64728, 64731, 64734, 64737, 64740, 64743, 64746, 64749, 64752, 64755, 64758, 64761, 64764, 64767,
    64770, 64773, 64776, 64779, 64782, 64785, 64788, 64790, 64793, 64796, 64799, 64802, 64805, 64808, 64810, 64813,
    64816, 64819, 64822, 64824, 64827, 64830, 64832, 64835, 64838, 64841, 64843, 64846, 64849, 64851, 64854, 64857,
    64859, 64862, 64864, 64867, 64870, 64872, 64875, 64877, 64880, 64882, 64885, 64887, 64890, 64892, 64895, 64897,
    64900, 64902, 64905, 64907, 64910, 64912, 64914, 64917, 64919, 64922, 64924, 64926, 64929, 64931, 64933, 64936,
    64938, 64940, 64943, 64945, 64947, 64949, 64952, 64954, 64956, 64958, 64961, 64963, 64965, 64967, 64969, 64972,
    64974, 64976, 64978, 64980, 64983, 64985, 64987, 64989, 64991, 64993, 64995, 64997, 64999, 65001, 65004, 65006,
    65008, 65010, 65012, 65014, 65016, 65018, 65020, 65022, 65024, 65026, 65028, 65030, 65032, 65034, 65036, 65037,
    65039, 65041, 65043, 65045, 65047, 65049, 65051, 65053, 65055, 65056, 65058, 65060, 65062, 65064, 65066, 65067,
    65069, 65071, 65073, 65075, 65076, 65078, 65080, 65082, 65084, 65085, 65087, 65089, 65091, 65092, 65094, 65096,
    65097, 65099, 65101, 65102, 65104, 65106, 65107, 65109, 65111, 65112, 65114, 65116, 65117, 65119, 65121, 65122,
    65124, 65125, 65127, 65129, 65130, 65132, 65133, 65135, 65136, 65138, 65139, 65141, 65143, 65144, 65146, 65147,
    65149, 65150, 65152, 65153, 65155, 65156, 65158, 65159, 65160, 65162, 65163, 65165, 65166, 65168, 65169, 65171,
    65172, 65173, 65175, 65176, 65178, 65179, 65180, 65182, 65183, 65184, 65186, 65187, 65189, 65190, 65191, 65193,
    65194, 65195, 65197, 65198, 65199, 65200, 65202, 65203, 65204, 65206, 65207, 65208, 65209, 65211, 65212, 65213,
    65215, 65216, 65217, 65218, 65219, 65221, 65222, 65223, 65224, 65226, 65227, 65228, 65229, 65230, 65232, 65233,
    65234, 65235, 65236, 65237, 65239, 65240, 65241, 65242, 65243, 65244, 65245, 65247, 65248, 65249, 65250, 65251,
    65252, 65253, 65254, 65255, 65257, 65258, 65259, 65260, 65261, 65262, 65263, 65264, 65265, 65266, 65267, 65268,
    65269, 65270, 65271, 65272, 65273, 65274, 65275, 65276, 65277, 65278, 65279, 65280, 65281, 65282, 65283, 65284,
    65285, 65286, 65287, 65288, 65289, 65290, 65291, 65292, 65293, 65294, 65295, 65296, 65297, 65298, 65299, 65300,
    65300, 65301, 65302, 65303, 65304, 65305, 65306, 65307, 65308, 65309, 65309, 65310, 65311, 65312, 65313, 65314,
    65315, 65316, 65316, 65317, 65318, 65319, 65320, 65321, 65321, 65322, 65323, 65324, 65325, 65326, 65326, 65327,
    65328, 65329, 65330, 65330, 65331, 65332, 65333, 65334, 65334, 65335, 65336, 65337, 65338, 65338, 65339, 65340,
    65341, 65341, 65342, 65343, 65344, 65344, 65345, 65346, 65347, 65347, 65348, 65349, 65350, 65350, 65351, 65352,
    65352, 65353, 65354, 65355, 65355, 65356, 65357, 65357, 65358, 65359, 65359, 65360, 65361, 65362, 65362, 65363,
    65364, 65364, 65365, 65366, 65366, 65367, 65368, 65368, 65369, 65369, 65370, 65371, 65371, 65372, 65373, 65373,
    65374, 65375, 65375, 65376, 65376, 65377, 65378, 65378, 65379, 65380, 65380, 65381, 65381, 65382, 65383, 65383,
    65384, 65384, 65385, 65386, 65386, 65387, 65387, 65388, 65388, 65389, 65390, 65390, 65391, 65391, 65392, 65392,
    65393, 65394, 65394, 65395, 65395, 65396, 65396, 65397, 65397, 65398, 65398, 65399, 65399, 65400, 65401, 65401,
    65402, 65402, 65403, 65403, 65404, 65404, 65405, 65405, 65406, 65406, 65407, 65407, 65408, 65408, 65409, 65409,
    65410, 65410, 65411, 65411, 65412, 65412, 65413, 65413, 65414, 65414, 65415, 65415, 65416, 65416, 65416, 65417,
    65417, 65418, 65418, 65419, 65419, 65420, 65420, 65421, 65421, 65421, 65422, 65422, 65423, 65423, 65424, 65424,
    65425, 65425, 65425, 65426, 65426, 65427, 65427, 65428, 65428, 65428, 65429, 65429, 65430, 65430, 65430, 65431,
    65431, 65432, 65432, 65433, 65433, 65433, 65434, 65434, 65435, 65435, 65435, 65436, 65436, 65436, 65437, 65437,
    65438, 65438, 65438, 65439, 65439, 65440, 65440, 65440, 65441, 65441, 65441, 65442, 65442, 65442, 65443, 65443,
    65444, 65444, 65444, 65445, 65445, 65445, 65446, 65446, 65446, 65447, 65447, 65447, 65448, 65448, 65448, 65449,
    65449, 65450, 65450, 65450, 65451, 65451, 65451, 65452, 65452, 65452, 65452, 65453, 65453, 65453, 65454, 65454,
    65454, 65455, 65455, 65455, 65456, 65456, 65456, 65457, 65457, 65457, 65458, 65458, 65458, 65458, 65459, 65459,
    65459, 65460, 65460, 65460, 65461, 65461, 65461, 65461, 65462, 65462, 65462, 65463, 65463, 65463, 65463, 65464,
    65464, 65464, 65465, 65465, 65465, 65465, 65466, 65466, 65466, 65466, 65467, 65467, 65467, 65468, 65468, 65468,
    65468, 65469, 65469, 65469, 65469, 65470, 65470, 65470, 65470, 65471, 65471, 65471, 65471, 65472, 65472, 65472,
    65472, 65473, 65473, 65473, 65473, 65474, 65474, 65474, 65474, 65475, 65475, 65475, 65475, 65476, 65476, 65476,
    65476, 65477, 65477, 65477, 65477, 65477, 65478, 65478, 65478, 65478, 65479, 65479, 65479, 65479, 65479, 65480,
    65480, 65480, 65480, 65481, 65481, 65481, 65481, 65481, 65482, 65482, 65482, 65482, 65482, 65483, 65483, 65483,
    65483, 65484, 65484, 65484, 65484, 65484, 65485, 65485, 65485, 65485, 65485, 65486, 65486, 65486, 65486, 65486,
    65486, 65487, 65487, 65487, 65487, 65487, 65488, 65488, 65488, 65488, 65488, 65489, 65489, 65489, 65489, 65489,
    65489, 65490, 65490, 65490, 65490, 65490, 65491, 65491, 65491, 65491, 65491, 65491, 65492, 65492, 65492, 65492,
    65492, 65492, 65493, 65493, 65493, 65493, 65493, 65493, 65494, 65494, 65494, 65494, 65494, 65494, 65495, 65495,
    65495, 65495, 65495, 65495, 65496, 65496, 65496, 65496, 65496, 65496, 65497, 65497, 65497, 65497, 65497, 65497,
    65497, 65498, 65498, 65498, 65498, 65498, 65498, 65498, 65499, 65499, 65499, 65499, 65499, 65499, 65499, 65500,
    65500, 65500, 65500, 65500, 65500, 65500, 65501, 65501, 65501, 65501, 65501, 65501, 65501, 65502, 65502, 65502,
    65502, 65502, 65502, 65502, 65502, 65503, 65503, 65503, 65503, 65503, 65503, 65503, 65504, 65504, 65504, 65504,
    65504, 65504, 65504, 65504, 65505, 65505, 65505, 65505, 65505, 65505, 65505, 65505, 65505, 65506, 65506, 65506,
    65506, 65506, 65506, 65506, 65506, 65507, 65507, 65507, 65507, 65507, 65507, 65507, 65507, 65507, 65508, 65508,
    65508, 65508, 65508, 65508, 65508, 65508, 65508, 65509, 65509, 65509, 65509, 65509, 65509, 65509, 65509, 65509,
    65509, 65510, 65510, 65510, 65510, 65510, 65510, 65510, 65510, 65510, 65511, 65511, 65511, 65511, 65511, 65511,
    65511, 65511, 65511, 65511, 65511, 65512, 65512, 65512, 65512, 65512, 65512, 65512, 65512, 65512, 65512, 65513,
    65513, 65513, 65513, 65513, 65513, 65513, 65513, 65513, 65513, 65513, 65514, 65514, 65514, 65514, 65514, 65514,
];

/// Point i of the 12-bit logistic curve, i in 0..4096.
pub closed spec fn logistic12(i: int) -> i32 {
    if i < 1024 {
        LOGISTIC12_0@[i]
    } else if i < 2048 {
        LOGISTIC12_1@[i - 1024]
    } else if i < 3072 {
        LOGISTIC12_2@[i - 2048]
    } else {
        LOGISTIC12_3@[i - 3072]
    }
}

/// Point i of the 16-bit logistic curve, i in 0..4096.
pub closed spec fn logistic16(i: int) -> i32 {
    if i < 1024 {
        LOGISTIC16_0@[i]
    } else if i < 2048 {
        LOGISTIC16_1@[i - 1024]
    } else if i < 3072 {
        LOGISTIC16_2@[i - 2048]
    } else {
        LOGISTIC16_3@[i - 3072]
    }
}

/// The points of both curves, block by block.
pub proof fn lemma_logistic_points(i: int)
    requires
        0 <= i < 4096,
    ensures
        logistic12(i) == (if i < 1024 {
            LOGISTIC12_0@[i]
        } else if i < 2048 {
            LOGISTIC12_1@[i - 1024]
        } else if i < 3072 {
            LOGISTIC12_2@[i - 2048]
        } else {
            LOGISTIC12_3@[i - 3072]
        }),
        logistic16(i) == (if i < 1024 {
            LOGISTIC16_0@[i]
        } else if i < 2048 {
            LOGISTIC16_1@[i - 1024]
        } else if i < 3072 {
            LOGISTIC16_2@[i - 2048]
        } else {
            LOGISTIC16_3@[i - 3072]
        }),
{
}

pub fn logistic12_at(i: usize) -> (v: i32)
    requires
        i < 4096,
    ensures
        v == logistic12(i as int),
{
    if i < 1024 {
        LOGISTIC12_0[i]
    } else if i < 2048 {
        LOGISTIC12_1[i - 1024]
    } else if i < 3072 {
        LOGISTIC12_2[i - 2048]
    } else {
        LOGISTIC12_3[i - 3072]
    }
}

pub fn logistic16_at(i: usize) -> (v: i32)
    requires
        i < 4096,
    ensures
        v == logistic16(i as int),
{
    if i < 1024 {
        LOGISTIC16_0[i]
    } else if i < 2048 {
        LOGISTIC16_1[i - 1024]
    } else if i < 3072 {
        LOGISTIC16_2[i - 2048]
    } else {
        LOGISTIC16_3[i - 3072]
    }
}

} // verus!
